//! Filters on blocks.

use crate::bindings::share;
use crate::data_slice::FilterAccountsDataSlice;
use crate::decode::{decode_pubkeys_into_set, decoded_pubkey_set};
use crate::error::{
    agrees, collected, lemma_collected_error, lemma_collected_step, FilterError, FilterResult,
};
use crate::limits::{any_check, max_check, pubkey_max_check, FilterLimits, FilterLimitsBlocks};
use crate::listing::listed;
use crate::message::{MessageAccountInfo, MessageBlock, MessageEntry, MessageTransactionInfo};
use crate::name::{names_of, FilterName, FilterNames};
use crate::pubkey::Pubkey;
use crate::pubkey_set::PubkeySet;
use crate::request::SubscribeRequestFilterBlocks;
use crate::update::{
    updates_of, FilteredUpdate, FilteredUpdateBlock, FilteredUpdateFilters, FilteredUpdateOneof,
    FilteredUpdates, UpdateBody, UpdateView,
};
use std::ops::Range;
use std::sync::Arc;
use vstd::prelude::*;

verus! {

/// Which parts of a block one filter hands on. Without named accounts, all transactions and
/// accounts count; else those that have to do with one of them.
#[verifier::ext_equal]
pub struct BlockDemand {
    pub account_include: Set<Pubkey>,
    pub include_transactions: Option<bool>,
    pub include_accounts: Option<bool>,
    pub include_entries: Option<bool>,
}

impl BlockDemand {
    pub open spec fn wants_transaction(self, tx: MessageTransactionInfo) -> bool {
        self.account_include == Set::<Pubkey>::empty() || !self.account_include.disjoint(
            tx.account_keys@,
        )
    }

    pub open spec fn wants_account(self, account: MessageAccountInfo) -> bool {
        self.account_include == Set::<Pubkey>::empty() || self.account_include.contains(
            account.pubkey,
        )
    }

    /// The transactions that are handed on. They are, unless the request says otherwise.
    pub open spec fn transactions(self, transactions: Seq<Arc<MessageTransactionInfo>>) -> Seq<
        Arc<MessageTransactionInfo>,
    > {
        if self.include_transactions == Some(false) {
            Seq::empty()
        } else {
            transactions.filter(|tx: Arc<MessageTransactionInfo>| self.wants_transaction(*tx))
        }
    }

    /// The accounts that are handed on. They are where the request says so.
    pub open spec fn accounts(self, accounts: Seq<Arc<MessageAccountInfo>>) -> Seq<
        Arc<MessageAccountInfo>,
    > {
        if self.include_accounts == Some(true) {
            accounts.filter(|account: Arc<MessageAccountInfo>| self.wants_account(*account))
        } else {
            Seq::empty()
        }
    }

    /// The entries that are handed on. They are where the request says so.
    pub open spec fn entries(self, entries: Seq<Arc<MessageEntry>>) -> Seq<Arc<MessageEntry>> {
        if self.include_entries == Some(true) {
            entries
        } else {
            Seq::empty()
        }
    }

    /// What an update about a block carries.
    pub open spec fn body(
        self,
        message: MessageBlock,
        data_slice: Seq<Range<usize>>,
    ) -> UpdateBody {
        UpdateBody::Block {
            meta: message.meta,
            transactions: self.transactions(message.transactions@),
            updated_account_count: message.updated_account_count,
            accounts_data_slice: data_slice,
            accounts: self.accounts(message.accounts@),
            entries: self.entries(message.entries@),
        }
    }
}

/// The filter that a request asks for under a name. The limit on accounts holds for entries too.
pub open spec fn requested_filter(
    name: Seq<char>,
    filter: SubscribeRequestFilterBlocks,
    limits: FilterLimitsBlocks,
    names: FilterNames,
) -> FilterResult<(Seq<char>, BlockDemand)> {
    let account_include = decoded_pubkey_set(
        filter.account_include@,
        limits.account_include_reject@,
    );
    if let Err(e) = any_check(filter.account_include@.len() == 0, limits.account_include_any) {
        Err(FilterError::LimitsCheck(e))
    } else if let Err(e) = pubkey_max_check(
        filter.account_include@.len() as int,
        limits.account_include_max,
    ) {
        Err(FilterError::LimitsCheck(e))
    } else if filter.include_transactions != Some(false) && !limits.include_transactions {
        Err(FilterError::CreateBlocksNotAllowed("transactions"))
    } else if filter.include_accounts == Some(true) && !limits.include_accounts {
        Err(FilterError::CreateBlocksNotAllowed("accounts"))
    } else if filter.include_entries == Some(true) && !limits.include_accounts {
        Err(FilterError::CreateBlocksNotAllowed("entries"))
    } else if let Err(e) = names.checked(name) {
        Err(FilterError::Name(e))
    } else if let Err(e) = account_include {
        Err(e)
    } else {
        Ok(
            (
                name,
                BlockDemand {
                    account_include: account_include->Ok_0,
                    include_transactions: filter.include_transactions,
                    include_accounts: filter.include_accounts,
                    include_entries: filter.include_entries,
                },
            ),
        )
    }
}

/// What becomes of each filter that is asked for.
pub open spec fn each_requested(
    configs: Seq<(String, SubscribeRequestFilterBlocks)>,
    limits: FilterLimitsBlocks,
    names: FilterNames,
) -> Seq<FilterResult<(Seq<char>, BlockDemand)>> {
    configs.map_values(
        |c: (String, SubscribeRequestFilterBlocks)| requested_filter(c.0@, c.1, limits, names),
    )
}

/// The filters that a request asks for.
pub open spec fn requested_filters(
    configs: Seq<(String, SubscribeRequestFilterBlocks)>,
    limits: FilterLimitsBlocks,
    names: FilterNames,
) -> FilterResult<Seq<(Seq<char>, BlockDemand)>> {
    if let Err(e) = max_check(configs.len() as int, limits.max) {
        Err(FilterError::LimitsCheck(e))
    } else {
        collected(each_requested(configs, limits, names))
    }
}

/// The updates that filters give for a block: one for each filter, with the parts that it wants.
pub open spec fn block_updates(
    filters: Seq<(Seq<char>, BlockDemand)>,
    message: Arc<MessageBlock>,
    data_slice: Seq<Range<usize>>,
) -> Seq<UpdateView> {
    filters.map_values(
        |f: (Seq<char>, BlockDemand)|
            UpdateView {
                filters: seq![f.0],
                message: f.1.body(*message, data_slice),
                created_at: Some(message.created_at),
            },
    )
}

/// What a filter hands on of a block is part of the block. Of the transactions and accounts it
/// hands on exactly those that it wants, where it hands on any.
pub proof fn lemma_block_parts(
    demand: BlockDemand,
    message: MessageBlock,
    tx: Arc<MessageTransactionInfo>,
    account: Arc<MessageAccountInfo>,
)
    ensures
        demand.transactions(message.transactions@).contains(tx) <==> {
            &&& demand.include_transactions != Some(false)
            &&& message.transactions@.contains(tx)
            &&& demand.wants_transaction(*tx)
        },
        demand.accounts(message.accounts@).contains(account) <==> {
            &&& demand.include_accounts == Some(true)
            &&& message.accounts@.contains(account)
            &&& demand.wants_account(*account)
        },
        demand.entries(message.entries@) == Seq::<Arc<MessageEntry>>::empty() || demand.entries(
            message.entries@,
        ) == message.entries@,
{
    let wanted_tx = |tx: Arc<MessageTransactionInfo>| demand.wants_transaction(*tx);
    let wanted_account = |account: Arc<MessageAccountInfo>| demand.wants_account(*account);
    lemma_kept(message.transactions@, wanted_tx, tx);
    lemma_kept(message.accounts@, wanted_account, account);
}

/// Filtering a list keeps those of its items that are wanted.
proof fn lemma_kept<A>(items: Seq<A>, wanted: spec_fn(A) -> bool, item: A)
    ensures
        items.filter(wanted).contains(item) <==> items.contains(item) && wanted(item),
{
    let kept = items.filter(wanted);
    if kept.contains(item) {
        items.lemma_filter_contains_rev(wanted, item);
        let i = choose|i: int| 0 <= i < kept.len() && kept[i] == item;
        items.lemma_filter_pred(wanted, i);
    }
    if items.contains(item) && wanted(item) {
        let i = choose|i: int| 0 <= i < items.len() && items[i] == item;
        items.lemma_filter_contains(wanted, i);
    }
}

/// The demand of one filter.
#[derive(Debug)]
pub struct FilterBlocksInner {
    pub account_include: PubkeySet,
    pub include_transactions: Option<bool>,
    pub include_accounts: Option<bool>,
    pub include_entries: Option<bool>,
}

impl View for FilterBlocksInner {
    type V = BlockDemand;

    open spec fn view(&self) -> BlockDemand {
        BlockDemand {
            account_include: self.account_include@,
            include_transactions: self.include_transactions,
            include_accounts: self.include_accounts,
            include_entries: self.include_entries,
        }
    }
}

impl Clone for FilterBlocksInner {
    fn clone(&self) -> (r: Self)
        ensures
            r@ == self@,
    {
        FilterBlocksInner {
            account_include: self.account_include.clone(),
            include_transactions: self.include_transactions,
            include_accounts: self.include_accounts,
            include_entries: self.include_entries,
        }
    }
}

impl FilterBlocksInner {
    fn select_transactions(&self, transactions: &[Arc<MessageTransactionInfo>]) -> (r: Vec<
        Arc<MessageTransactionInfo>,
    >)
        ensures
            r@ == self@.transactions(transactions@),
    {
        let mut selected: Vec<Arc<MessageTransactionInfo>> = Vec::new();
        if let Some(false) = self.include_transactions {
            return selected;
        }
        let ghost wanted = |tx: Arc<MessageTransactionInfo>| self@.wants_transaction(*tx);
        let mut i: usize = 0;
        proof {
            reveal(Seq::filter);
        }
        while i < transactions.len()
            invariant
                i <= transactions@.len(),
                wanted == (|tx: Arc<MessageTransactionInfo>| self@.wants_transaction(*tx)),
                selected@ == transactions@.take(i as int).filter(wanted),
            decreases transactions@.len() - i,
        {
            proof {
                transactions@.take(i as int).lemma_filter_push(transactions@[i as int], wanted);
                assert(transactions@.take(i + 1) =~= transactions@.take(i as int).push(
                    transactions@[i as int],
                ));
            }
            let tx = &transactions[i];
            if self.account_include.is_empty() || self.account_include.intersects(
                &tx.account_keys,
            ) {
                selected.push(share(tx));
            }
            i += 1;
        }
        assert(transactions@.take(i as int) =~= transactions@);
        selected
    }

    fn select_accounts(&self, accounts: &[Arc<MessageAccountInfo>]) -> (r: Vec<
        Arc<MessageAccountInfo>,
    >)
        ensures
            r@ == self@.accounts(accounts@),
    {
        let mut selected: Vec<Arc<MessageAccountInfo>> = Vec::new();
        match self.include_accounts {
            Some(true) => {},
            _ => return selected,
        }
        let ghost wanted = |account: Arc<MessageAccountInfo>| self@.wants_account(*account);
        let mut i: usize = 0;
        proof {
            reveal(Seq::filter);
        }
        while i < accounts.len()
            invariant
                i <= accounts@.len(),
                wanted == (|account: Arc<MessageAccountInfo>| self@.wants_account(*account)),
                selected@ == accounts@.take(i as int).filter(wanted),
            decreases accounts@.len() - i,
        {
            proof {
                accounts@.take(i as int).lemma_filter_push(accounts@[i as int], wanted);
                assert(accounts@.take(i + 1) =~= accounts@.take(i as int).push(
                    accounts@[i as int],
                ));
            }
            let account = &accounts[i];
            if self.account_include.is_empty() || self.account_include.contains(&account.pubkey) {
                selected.push(share(account));
            }
            i += 1;
        }
        assert(accounts@.take(i as int) =~= accounts@);
        selected
    }

    fn select_entries(&self, entries: &[Arc<MessageEntry>]) -> (r: Vec<Arc<MessageEntry>>)
        ensures
            r@ == self@.entries(entries@),
    {
        let mut selected: Vec<Arc<MessageEntry>> = Vec::new();
        match self.include_entries {
            Some(true) => {},
            _ => return selected,
        }
        let mut i: usize = 0;
        while i < entries.len()
            invariant
                i <= entries@.len(),
                selected@ == entries@.take(i as int),
            decreases entries@.len() - i,
        {
            selected.push(share(&entries[i]));
            assert(selected@ =~= entries@.take(i + 1));
            i += 1;
        }
        assert(entries@.take(i as int) =~= entries@);
        selected
    }
}

/// Filters on blocks, by name.
#[derive(Debug)]
pub struct FilterBlocks {
    filters: Vec<(FilterName, FilterBlocksInner)>,
}

impl View for FilterBlocks {
    type V = Seq<(Seq<char>, BlockDemand)>;

    closed spec fn view(&self) -> Seq<(Seq<char>, BlockDemand)> {
        listed(self.filters@)
    }
}

impl Default for FilterBlocks {
    fn default() -> (r: Self)
        ensures
            r@ == Seq::<(Seq<char>, BlockDemand)>::empty(),
    {
        let r = FilterBlocks { filters: Vec::new() };
        assert(r@ =~= Seq::<(Seq<char>, BlockDemand)>::empty());
        r
    }
}

impl Clone for FilterBlocks {
    fn clone(&self) -> (r: Self)
        ensures
            r@ == self@,
    {
        let mut filters: Vec<(FilterName, FilterBlocksInner)> = Vec::new();
        let mut i: usize = 0;
        while i < self.filters.len()
            invariant
                i <= self.filters@.len(),
                listed(filters@) =~= listed(self.filters@).take(i as int),
            decreases self.filters@.len() - i,
        {
            let ghost before = filters@;
            filters.push((self.filters[i].0.clone(), self.filters[i].1.clone()));
            assert(listed(filters@) =~= listed(before).push(listed(self.filters@)[i as int]));
            i += 1;
        }
        assert(listed(self.filters@).take(i as int) =~= listed(self.filters@));
        FilterBlocks { filters }
    }
}

impl FilterBlocks {
    /// The number of filters.
    pub fn len(&self) -> (r: usize)
        ensures
            r == self@.len(),
    {
        self.filters.len()
    }

    pub fn new(
        configs: &[(String, SubscribeRequestFilterBlocks)],
        limits: &FilterLimitsBlocks,
        names: &FilterNames,
    ) -> (r: FilterResult<Self>)
        ensures
            agrees(r, requested_filters(configs@, *limits, *names)),
    {
        if let Err(e) = FilterLimits::check_max(configs.len(), limits.max) {
            return Err(FilterError::LimitsCheck(e));
        }
        let ghost results = each_requested(configs@, *limits, *names);
        let mut filters: Vec<(FilterName, FilterBlocksInner)> = Vec::new();
        let mut i: usize = 0;
        assert(results.take(0) =~= Seq::empty());
        assert(listed(filters@) =~= Seq::empty());
        while i < configs.len()
            invariant
                i <= configs@.len() <= limits.max,
                results == each_requested(configs@, *limits, *names),
                collected(results.take(i as int)) == Ok::<
                    Seq<(Seq<char>, BlockDemand)>,
                    FilterError,
                >(listed(filters@)),
            decreases configs@.len() - i,
        {
            proof {
                lemma_collected_step(results, i as int);
            }
            let ghost before = filters@;
            match Self::new_filter(configs[i].0.as_str(), &configs[i].1, limits, names) {
                Ok(filter) => {
                    filters.push(filter);
                    assert(listed(filters@) =~= listed(before).push(filter@));
                },
                Err(e) => {
                    proof {
                        lemma_collected_error(results, i + 1);
                    }
                    return Err(e);
                },
            }
            i += 1;
        }
        assert(results.take(i as int) =~= results);
        Ok(FilterBlocks { filters })
    }

    /// Reads one filter of a request.
    fn new_filter(
        name: &str,
        filter: &SubscribeRequestFilterBlocks,
        limits: &FilterLimitsBlocks,
        names: &FilterNames,
    ) -> (r: FilterResult<(FilterName, FilterBlocksInner)>)
        ensures
            agrees(r, requested_filter(name@, *filter, *limits, *names)),
    {
        if let Err(e) = FilterLimits::check_any(
            filter.account_include.is_empty(),
            limits.account_include_any,
        ) {
            return Err(FilterError::LimitsCheck(e));
        }
        if let Err(e) = FilterLimits::check_pubkey_max(
            filter.account_include.len(),
            limits.account_include_max,
        ) {
            return Err(FilterError::LimitsCheck(e));
        }
        let without_transactions = match filter.include_transactions {
            Some(false) => true,
            _ => false,
        };
        if !(without_transactions || limits.include_transactions) {
            return Err(FilterError::CreateBlocksNotAllowed("transactions"));
        }
        let without_accounts = match filter.include_accounts {
            None | Some(false) => true,
            _ => false,
        };
        if !(without_accounts || limits.include_accounts) {
            return Err(FilterError::CreateBlocksNotAllowed("accounts"));
        }
        let without_entries = match filter.include_entries {
            None | Some(false) => true,
            _ => false,
        };
        if !(without_entries || limits.include_accounts) {
            return Err(FilterError::CreateBlocksNotAllowed("entries"));
        }
        let name = match names.get(name) {
            Ok(name) => name,
            Err(e) => return Err(FilterError::Name(e)),
        };
        let account_include = match decode_pubkeys_into_set(
            filter.account_include.as_slice(),
            &limits.account_include_reject,
        ) {
            Ok(keys) => keys,
            Err(e) => return Err(e),
        };
        Ok(
            (
                name,
                FilterBlocksInner {
                    account_include,
                    include_transactions: filter.include_transactions,
                    include_accounts: filter.include_accounts,
                    include_entries: filter.include_entries,
                },
            ),
        )
    }

    pub fn get_updates(
        &self,
        message: &Arc<MessageBlock>,
        accounts_data_slice: &FilterAccountsDataSlice,
    ) -> (r: FilteredUpdates)
        ensures
            updates_of(r@) == block_updates(self@, *message, accounts_data_slice@),
    {
        let ghost wanted = block_updates(self@, *message, accounts_data_slice@);
        let mut updates: FilteredUpdates = Vec::new();
        let mut i: usize = 0;
        assert(updates_of(updates@) =~= wanted.take(0));
        while i < self.filters.len()
            invariant
                i <= self.filters@.len(),
                wanted == block_updates(self@, *message, accounts_data_slice@),
                updates_of(updates@) == wanted.take(i as int),
            decreases self.filters@.len() - i,
        {
            let inner = &self.filters[i].1;
            let block = FilteredUpdateBlock {
                meta: share(&message.meta),
                transactions: inner.select_transactions(message.transactions.as_slice()),
                updated_account_count: message.updated_account_count,
                accounts_data_slice: accounts_data_slice.clone(),
                accounts: inner.select_accounts(message.accounts.as_slice()),
                entries: inner.select_entries(message.entries.as_slice()),
            };
            let mut filters: FilteredUpdateFilters = Vec::new();
            filters.push(self.filters[i].0.clone());
            assert(names_of(filters@) =~= seq![self@[i as int].0]);
            let ghost before = updates@;
            let update = FilteredUpdate::new(
                filters,
                FilteredUpdateOneof::block(block),
                message.created_at,
            );
            updates.push(update);
            proof {
                assert(update@ == wanted[i as int]);
                assert(updates_of(updates@) =~= updates_of(before).push(update@));
                assert(wanted.take(i + 1) =~= wanted.take(i as int).push(wanted[i as int]));
            }
            i += 1;
        }
        assert(wanted.take(i as int) =~= wanted);
        updates
    }
}

} // verus!
