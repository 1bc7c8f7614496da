//! Filters on transactions that were run.

use crate::decode::{
    decode_pubkeys_into_set, decode_signature, decoded_pubkey_set, decoded_signature,
};
use crate::demand::{AccountsDemand, TransactionDemand};
use crate::error::{
    agrees, collected, lemma_collected_error, lemma_collected_step, FilterError, FilterResult,
};
use crate::limits::{
    any_check, max_check, pubkey_max_check, FilterLimits, FilterLimitsTransactions,
};
use crate::listing::{chosen, lemma_chosen_none, lemma_chosen_step, listed};
use crate::message::MessageTransaction;
use crate::name::{names_of, FilterName, FilterNames};
use crate::pubkey::{bytes_equal, Signature};
use crate::pubkey_set::PubkeySet;
use crate::request::SubscribeRequestFilterTransactions;
use crate::update::{
    once, updates_of, FilteredUpdate, FilteredUpdateFilters, FilteredUpdateOneof, FilteredUpdates,
    UpdateBody, UpdateView,
};
use vstd::prelude::*;

verus! {

/// Which updates a filter gives: with the whole transaction, or with its status alone.
#[derive(Debug, Clone, Copy, PartialEq, Eq, Structural)]
pub enum FilterTransactionsType {
    Transaction,
    TransactionStatus,
}

/// A request that leaves every transaction in.
pub open spec fn asks_for_any(filter: SubscribeRequestFilterTransactions) -> bool {
    &&& filter.vote is None
    &&& filter.failed is None
    &&& filter.account_include@.len() == 0
    &&& filter.account_exclude@.len() == 0
    &&& filter.account_required@.len() == 0
}

/// The filter that a request asks for under a name.
pub open spec fn requested_filter(
    name: Seq<char>,
    filter: SubscribeRequestFilterTransactions,
    limits: FilterLimitsTransactions,
    names: FilterNames,
) -> FilterResult<(Seq<char>, TransactionDemand)> {
    let signature = decoded_signature(filter.signature);
    let included = decoded_pubkey_set(filter.account_include@, limits.account_include_reject@);
    let excluded = decoded_pubkey_set(filter.account_exclude@, Set::empty());
    let required = decoded_pubkey_set(filter.account_required@, Set::empty());
    if let Err(e) = any_check(asks_for_any(filter), limits.any) {
        Err(FilterError::LimitsCheck(e))
    } else if let Err(e) = pubkey_max_check(
        filter.account_include@.len() as int,
        limits.account_include_max,
    ) {
        Err(FilterError::LimitsCheck(e))
    } else if let Err(e) = pubkey_max_check(
        filter.account_exclude@.len() as int,
        limits.account_exclude_max,
    ) {
        Err(FilterError::LimitsCheck(e))
    } else if let Err(e) = pubkey_max_check(
        filter.account_required@.len() as int,
        limits.account_required_max,
    ) {
        Err(FilterError::LimitsCheck(e))
    } else if let Err(e) = names.checked(name) {
        Err(FilterError::Name(e))
    } else if let Err(e) = signature {
        Err(e)
    } else if let Err(e) = included {
        Err(e)
    } else if let Err(e) = excluded {
        Err(e)
    } else if let Err(e) = required {
        Err(e)
    } else {
        Ok(
            (
                name,
                TransactionDemand {
                    vote: filter.vote,
                    failed: filter.failed,
                    signature: signature->Ok_0,
                    accounts: AccountsDemand {
                        included: included->Ok_0,
                        excluded: excluded->Ok_0,
                        required: required->Ok_0,
                    },
                },
            ),
        )
    }
}

/// What becomes of each filter that is asked for.
pub open spec fn each_requested(
    configs: Seq<(String, SubscribeRequestFilterTransactions)>,
    limits: FilterLimitsTransactions,
    names: FilterNames,
) -> Seq<FilterResult<(Seq<char>, TransactionDemand)>> {
    configs.map_values(
        |c: (String, SubscribeRequestFilterTransactions)|
            requested_filter(c.0@, c.1, limits, names),
    )
}

/// The filters that a request asks for.
pub open spec fn requested_filters(
    configs: Seq<(String, SubscribeRequestFilterTransactions)>,
    limits: FilterLimitsTransactions,
    names: FilterNames,
) -> FilterResult<Seq<(Seq<char>, TransactionDemand)>> {
    if let Err(e) = max_check(configs.len() as int, limits.max) {
        Err(FilterError::LimitsCheck(e))
    } else {
        collected(each_requested(configs, limits, names))
    }
}

/// The demands that a transaction meets.
pub open spec fn met_by(message: MessageTransaction) -> spec_fn(TransactionDemand) -> bool {
    |d: TransactionDemand|
        d.met(
            message.transaction.is_vote,
            message.transaction.is_failed(),
            message.transaction.first_signature(),
            message.transaction.account_keys@,
        )
}

/// What an update about a transaction carries.
pub open spec fn update_body(
    filter_type: FilterTransactionsType,
    message: MessageTransaction,
) -> UpdateBody {
    match filter_type {
        FilterTransactionsType::Transaction => UpdateBody::Transaction {
            transaction: message.transaction,
            slot: message.slot,
        },
        FilterTransactionsType::TransactionStatus => UpdateBody::TransactionStatus {
            transaction: message.transaction,
            slot: message.slot,
        },
    }
}

/// The updates that filters give for a transaction: one with the names of all filters whose
/// demand it meets, if there are any.
pub open spec fn transaction_updates(
    filter_type: FilterTransactionsType,
    filters: Seq<(Seq<char>, TransactionDemand)>,
    message: MessageTransaction,
) -> Seq<UpdateView> {
    once(
        chosen(filters, met_by(message)),
        update_body(filter_type, message),
        message.created_at,
    )
}

/// The demand of one filter.
#[derive(Debug)]
pub struct FilterTransactionsInner {
    pub vote: Option<bool>,
    pub failed: Option<bool>,
    pub signature: Option<Signature>,
    pub account_include: PubkeySet,
    pub account_exclude: PubkeySet,
    pub account_required: PubkeySet,
}

impl View for FilterTransactionsInner {
    type V = TransactionDemand;

    open spec fn view(&self) -> TransactionDemand {
        TransactionDemand {
            vote: self.vote,
            failed: self.failed,
            signature: self.signature,
            accounts: AccountsDemand {
                included: self.account_include@,
                excluded: self.account_exclude@,
                required: self.account_required@,
            },
        }
    }
}

impl Clone for FilterTransactionsInner {
    fn clone(&self) -> (r: Self)
        ensures
            r@ == self@,
    {
        FilterTransactionsInner {
            vote: self.vote,
            failed: self.failed,
            signature: self.signature,
            account_include: self.account_include.clone(),
            account_exclude: self.account_exclude.clone(),
            account_required: self.account_required.clone(),
        }
    }
}

impl FilterTransactionsInner {
    /// Tells whether a transaction meets the demand.
    pub fn is_match(&self, message: &MessageTransaction) -> (r: bool)
        ensures
            r == met_by(*message)(self@),
    {
        let tx = &message.transaction;
        if let Some(is_vote) = self.vote {
            if is_vote != tx.is_vote {
                return false;
            }
        }
        if let Some(is_failed) = self.failed {
            if is_failed != tx.meta.err.is_some() {
                return false;
            }
        }
        if let Some(signature) = &self.signature {
            if tx.transaction.signatures.is_empty() {
                return false;
            }
            if !bytes_equal(
                signature.bytes.as_slice(),
                tx.transaction.signatures[0].as_slice(),
            ) {
                return false;
            }
        }
        if !self.account_include.is_empty() && !self.account_include.intersects(&tx.account_keys) {
            return false;
        }
        if self.account_exclude.intersects(&tx.account_keys) {
            return false;
        }
        self.account_required.is_subset(&tx.account_keys)
    }
}

/// Filters on transactions that were run, by name.
#[derive(Debug)]
pub struct FilterTransactions {
    filter_type: FilterTransactionsType,
    filters: Vec<(FilterName, FilterTransactionsInner)>,
}

impl View for FilterTransactions {
    type V = (FilterTransactionsType, Seq<(Seq<char>, TransactionDemand)>);

    closed spec fn view(&self) -> (FilterTransactionsType, Seq<(Seq<char>, TransactionDemand)>) {
        (self.filter_type, listed(self.filters@))
    }
}

impl Clone for FilterTransactions {
    fn clone(&self) -> (r: Self)
        ensures
            r@ == self@,
    {
        let mut filters: Vec<(FilterName, FilterTransactionsInner)> = Vec::new();
        let mut i: usize = 0;
        while i < self.filters.len()
            invariant
                i <= self.filters@.len(),
                listed(filters@) =~= listed(self.filters@).take(i as int),
            decreases self.filters@.len() - i,
        {
            let ghost before = filters@;
            filters.push((self.filters[i].0.clone(), self.filters[i].1.clone()));
            assert(listed(filters@) =~= listed(before).push(listed(self.filters@)[i as int]));
            i += 1;
        }
        assert(listed(self.filters@).take(i as int) =~= listed(self.filters@));
        FilterTransactions { filter_type: self.filter_type, filters }
    }
}

impl FilterTransactions {
    /// No filters.
    pub fn none(filter_type: FilterTransactionsType) -> (r: Self)
        ensures
            r@ == (filter_type, Seq::<(Seq<char>, TransactionDemand)>::empty()),
    {
        let r = FilterTransactions { filter_type, filters: Vec::new() };
        assert(r@.1 =~= Seq::<(Seq<char>, TransactionDemand)>::empty());
        r
    }

    pub fn new(
        configs: &[(String, SubscribeRequestFilterTransactions)],
        limits: &FilterLimitsTransactions,
        filter_type: FilterTransactionsType,
        names: &FilterNames,
    ) -> (r: FilterResult<Self>)
        ensures
            match requested_filters(configs@, *limits, *names) {
                Ok(filters) => r is Ok && r->Ok_0@ == (filter_type, filters),
                Err(e) => r is Err && r->Err_0 == e,
            },
    {
        if let Err(e) = FilterLimits::check_max(configs.len(), limits.max) {
            return Err(FilterError::LimitsCheck(e));
        }
        let ghost results = each_requested(configs@, *limits, *names);
        let mut filters: Vec<(FilterName, FilterTransactionsInner)> = Vec::new();
        let mut i: usize = 0;
        assert(results.take(0) =~= Seq::empty());
        assert(listed(filters@) =~= Seq::empty());
        while i < configs.len()
            invariant
                i <= configs@.len() <= limits.max,
                results == each_requested(configs@, *limits, *names),
                collected(results.take(i as int)) == Ok::<
                    Seq<(Seq<char>, TransactionDemand)>,
                    FilterError,
                >(listed(filters@)),
            decreases configs@.len() - i,
        {
            proof {
                lemma_collected_step(results, i as int);
            }
            let ghost before = filters@;
            match Self::new_filter(configs[i].0.as_str(), &configs[i].1, limits, names) {
                Ok(filter) => {
                    filters.push(filter);
                    assert(listed(filters@) =~= listed(before).push(filter@));
                },
                Err(e) => {
                    proof {
                        lemma_collected_error(results, i + 1);
                    }
                    return Err(e);
                },
            }
            i += 1;
        }
        assert(results.take(i as int) =~= results);
        Ok(FilterTransactions { filter_type, filters })
    }

    /// The number of filters.
    pub fn len(&self) -> (r: usize)
        ensures
            r == self@.1.len(),
    {
        self.filters.len()
    }

    /// The demand of the filter at a position.
    pub fn get(&self, i: usize) -> (r: &FilterTransactionsInner)
        requires
            i < self@.1.len(),
        ensures
            r@ == self@.1[i as int].1,
    {
        &self.filters[i].1
    }

    /// Reads one filter of a request.
    fn new_filter(
        name: &str,
        filter: &SubscribeRequestFilterTransactions,
        limits: &FilterLimitsTransactions,
        names: &FilterNames,
    ) -> (r: FilterResult<(FilterName, FilterTransactionsInner)>)
        ensures
            agrees(r, requested_filter(name@, *filter, *limits, *names)),
    {
        if let Err(e) = FilterLimits::check_any(
            filter.vote.is_none() && filter.failed.is_none() && filter.account_include.is_empty()
                && filter.account_exclude.is_empty() && filter.account_required.is_empty(),
            limits.any,
        ) {
            return Err(FilterError::LimitsCheck(e));
        }
        if let Err(e) = FilterLimits::check_pubkey_max(
            filter.account_include.len(),
            limits.account_include_max,
        ) {
            return Err(FilterError::LimitsCheck(e));
        }
        if let Err(e) = FilterLimits::check_pubkey_max(
            filter.account_exclude.len(),
            limits.account_exclude_max,
        ) {
            return Err(FilterError::LimitsCheck(e));
        }
        if let Err(e) = FilterLimits::check_pubkey_max(
            filter.account_required.len(),
            limits.account_required_max,
        ) {
            return Err(FilterError::LimitsCheck(e));
        }
        let name = match names.get(name) {
            Ok(name) => name,
            Err(e) => return Err(FilterError::Name(e)),
        };
        let signature = match decode_signature(&filter.signature) {
            Ok(signature) => signature,
            Err(e) => return Err(e),
        };
        let account_include = match decode_pubkeys_into_set(
            filter.account_include.as_slice(),
            &limits.account_include_reject,
        ) {
            Ok(keys) => keys,
            Err(e) => return Err(e),
        };
        let account_exclude = match decode_pubkeys_into_set(
            filter.account_exclude.as_slice(),
            &PubkeySet::new(),
        ) {
            Ok(keys) => keys,
            Err(e) => return Err(e),
        };
        let account_required = match decode_pubkeys_into_set(
            filter.account_required.as_slice(),
            &PubkeySet::new(),
        ) {
            Ok(keys) => keys,
            Err(e) => return Err(e),
        };
        Ok(
            (
                name,
                FilterTransactionsInner {
                    vote: filter.vote,
                    failed: filter.failed,
                    signature,
                    account_include,
                    account_exclude,
                    account_required,
                },
            ),
        )
    }

    pub fn get_updates(&self, message: &MessageTransaction) -> (r: FilteredUpdates)
        ensures
            updates_of(r@) == transaction_updates(self@.0, self@.1, *message),
    {
        let mut filters: FilteredUpdateFilters = Vec::new();
        let mut i: usize = 0;
        proof {
            lemma_chosen_none(self@.1.take(0), met_by(*message));
            assert(names_of(filters@) =~= Seq::empty());
        }
        while i < self.filters.len()
            invariant
                i <= self.filters@.len(),
                names_of(filters@) == chosen(self@.1.take(i as int), met_by(*message)),
            decreases self.filters@.len() - i,
        {
            proof {
                lemma_chosen_step(self@.1, met_by(*message), i as int);
            }
            if self.filters[i].1.is_match(message) {
                let ghost before = filters@;
                filters.push(self.filters[i].0.clone());
                assert(names_of(filters@) =~= names_of(before).push(self@.1[i as int].0));
            }
            i += 1;
        }
        assert(self@.1.take(i as int) =~= self@.1);
        FilteredUpdate::once(
            filters,
            match self.filter_type {
                FilterTransactionsType::Transaction => FilteredUpdateOneof::transaction(message),
                FilterTransactionsType::TransactionStatus => {
                    FilteredUpdateOneof::transaction_status(message)
                },
            },
            message.created_at,
        )
    }
}

} // verus!
