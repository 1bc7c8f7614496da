//! Filters on transactions that were received and not run yet.

use crate::decode::{decode_pubkeys_into_set, decoded_pubkey_set};
use crate::demand::{AccountsDemand, DeshredDemand};
use crate::error::{
    agrees, collected, lemma_collected_error, lemma_collected_step, FilterError, FilterResult,
};
use crate::limits::{
    any_check, max_check, pubkey_max_check, FilterLimits, FilterLimitsDeshredTransactions,
};
use crate::listing::{chosen, lemma_chosen_none, lemma_chosen_step, listed};
use crate::message::MessageDeshredTransaction;
use crate::name::{names_of, FilterName, FilterNames};
use crate::pubkey_set::PubkeySet;
use crate::request::SubscribeRequestFilterDeshredTransactions;
use crate::update::{
    deshred_updates_of, DeshredUpdateBody, DeshredUpdateView, FilteredUpdateDeshred,
    FilteredUpdateDeshredOneof, FilteredUpdateFilters, FilteredUpdatesDeshred,
};
use vstd::prelude::*;

verus! {

/// A request that leaves every transaction in.
pub open spec fn asks_for_any(filter: SubscribeRequestFilterDeshredTransactions) -> bool {
    &&& filter.vote is None
    &&& filter.account_include@.len() == 0
    &&& filter.account_exclude@.len() == 0
    &&& filter.account_required@.len() == 0
}

/// The filter that a request asks for under a name.
pub open spec fn requested_filter(
    name: Seq<char>,
    filter: SubscribeRequestFilterDeshredTransactions,
    limits: FilterLimitsDeshredTransactions,
    names: FilterNames,
) -> FilterResult<(Seq<char>, DeshredDemand)> {
    let included = decoded_pubkey_set(filter.account_include@, limits.account_include_reject@);
    let excluded = decoded_pubkey_set(filter.account_exclude@, Set::empty());
    let required = decoded_pubkey_set(filter.account_required@, Set::empty());
    if let Err(e) = any_check(asks_for_any(filter), limits.any) {
        Err(FilterError::LimitsCheck(e))
    } else if let Err(e) = pubkey_max_check(
        filter.account_include@.len() as int,
        limits.account_include_max,
    ) {
        Err(FilterError::LimitsCheck(e))
    } else if let Err(e) = pubkey_max_check(
        filter.account_exclude@.len() as int,
        limits.account_exclude_max,
    ) {
        Err(FilterError::LimitsCheck(e))
    } else if let Err(e) = pubkey_max_check(
        filter.account_required@.len() as int,
        limits.account_required_max,
    ) {
        Err(FilterError::LimitsCheck(e))
    } else if let Err(e) = names.checked(name) {
        Err(FilterError::Name(e))
    } else if let Err(e) = included {
        Err(e)
    } else if let Err(e) = excluded {
        Err(e)
    } else if let Err(e) = required {
        Err(e)
    } else {
        Ok(
            (
                name,
                DeshredDemand {
                    vote: filter.vote,
                    accounts: AccountsDemand {
                        included: included->Ok_0,
                        excluded: excluded->Ok_0,
                        required: required->Ok_0,
                    },
                },
            ),
        )
    }
}

/// What becomes of each filter that is asked for.
pub open spec fn each_requested(
    configs: Seq<(String, SubscribeRequestFilterDeshredTransactions)>,
    limits: FilterLimitsDeshredTransactions,
    names: FilterNames,
) -> Seq<FilterResult<(Seq<char>, DeshredDemand)>> {
    configs.map_values(
        |c: (String, SubscribeRequestFilterDeshredTransactions)|
            requested_filter(c.0@, c.1, limits, names),
    )
}

/// The filters that a request asks for.
pub open spec fn requested_filters(
    configs: Seq<(String, SubscribeRequestFilterDeshredTransactions)>,
    limits: FilterLimitsDeshredTransactions,
    names: FilterNames,
) -> FilterResult<Seq<(Seq<char>, DeshredDemand)>> {
    if let Err(e) = max_check(configs.len() as int, limits.max) {
        Err(FilterError::LimitsCheck(e))
    } else {
        collected(each_requested(configs, limits, names))
    }
}

/// The demands that a transaction meets.
pub open spec fn met_by(message: MessageDeshredTransaction) -> spec_fn(DeshredDemand) -> bool {
    |d: DeshredDemand| d.met(message.transaction.is_vote, message.transaction.keys())
}

/// The updates that filters give for a transaction: one with the names of all filters whose
/// demand it meets, if there are any.
pub open spec fn deshred_updates(
    filters: Seq<(Seq<char>, DeshredDemand)>,
    message: MessageDeshredTransaction,
) -> Seq<DeshredUpdateView> {
    let names = chosen(filters, met_by(message));
    if names.len() == 0 {
        Seq::empty()
    } else {
        seq![
            DeshredUpdateView {
                filters: names,
                message: DeshredUpdateBody::DeshredTransaction {
                    transaction: message.transaction,
                    slot: message.slot,
                },
                created_at: Some(message.created_at),
            },
        ]
    }
}

/// The demand of one filter.
#[derive(Debug)]
pub struct FilterDeshredTransactionsInner {
    pub vote: Option<bool>,
    pub account_include: PubkeySet,
    pub account_exclude: PubkeySet,
    pub account_required: PubkeySet,
}

impl View for FilterDeshredTransactionsInner {
    type V = DeshredDemand;

    open spec fn view(&self) -> DeshredDemand {
        DeshredDemand {
            vote: self.vote,
            accounts: AccountsDemand {
                included: self.account_include@,
                excluded: self.account_exclude@,
                required: self.account_required@,
            },
        }
    }
}

impl Clone for FilterDeshredTransactionsInner {
    fn clone(&self) -> (r: Self)
        ensures
            r@ == self@,
    {
        FilterDeshredTransactionsInner {
            vote: self.vote,
            account_include: self.account_include.clone(),
            account_exclude: self.account_exclude.clone(),
            account_required: self.account_required.clone(),
        }
    }
}

impl FilterDeshredTransactionsInner {
    /// Tells whether a transaction meets the demand.
    pub fn is_match(&self, message: &MessageDeshredTransaction) -> (r: bool)
        ensures
            r == met_by(*message)(self@),
    {
        let tx = &message.transaction;
        if let Some(is_vote) = self.vote {
            if is_vote != tx.is_vote {
                return false;
            }
        }
        let keys = tx.all_account_keys();
        if !self.account_include.is_empty() && !keys.any_in_set(&self.account_include) {
            return false;
        }
        if !self.account_exclude.is_empty() && keys.any_in_set(&self.account_exclude) {
            return false;
        }
        self.account_required.is_empty() || keys.contains_all(&self.account_required)
    }
}

/// Filters on transactions that were received, by name.
#[derive(Debug)]
pub struct FilterDeshredTransactions {
    filters: Vec<(FilterName, FilterDeshredTransactionsInner)>,
}

impl View for FilterDeshredTransactions {
    type V = Seq<(Seq<char>, DeshredDemand)>;

    closed spec fn view(&self) -> Seq<(Seq<char>, DeshredDemand)> {
        listed(self.filters@)
    }
}

impl Clone for FilterDeshredTransactions {
    fn clone(&self) -> (r: Self)
        ensures
            r@ == self@,
    {
        let mut filters: Vec<(FilterName, FilterDeshredTransactionsInner)> = Vec::new();
        let mut i: usize = 0;
        while i < self.filters.len()
            invariant
                i <= self.filters@.len(),
                listed(filters@) =~= listed(self.filters@).take(i as int),
            decreases self.filters@.len() - i,
        {
            let ghost before = filters@;
            filters.push((self.filters[i].0.clone(), self.filters[i].1.clone()));
            assert(listed(filters@) =~= listed(before).push(listed(self.filters@)[i as int]));
            i += 1;
        }
        assert(listed(self.filters@).take(i as int) =~= listed(self.filters@));
        FilterDeshredTransactions { filters }
    }
}

impl Default for FilterDeshredTransactions {
    fn default() -> (r: Self)
        ensures
            r@ == Seq::<(Seq<char>, DeshredDemand)>::empty(),
    {
        let r = FilterDeshredTransactions { filters: Vec::new() };
        assert(r@ =~= Seq::<(Seq<char>, DeshredDemand)>::empty());
        r
    }
}

impl FilterDeshredTransactions {
    pub fn new(
        configs: &[(String, SubscribeRequestFilterDeshredTransactions)],
        limits: &FilterLimitsDeshredTransactions,
        names: &FilterNames,
    ) -> (r: FilterResult<Self>)
        ensures
            agrees(r, requested_filters(configs@, *limits, *names)),
    {
        if let Err(e) = FilterLimits::check_max(configs.len(), limits.max) {
            return Err(FilterError::LimitsCheck(e));
        }
        let ghost results = each_requested(configs@, *limits, *names);
        let mut filters: Vec<(FilterName, FilterDeshredTransactionsInner)> = Vec::new();
        let mut i: usize = 0;
        assert(results.take(0) =~= Seq::empty());
        assert(listed(filters@) =~= Seq::empty());
        while i < configs.len()
            invariant
                i <= configs@.len() <= limits.max,
                results == each_requested(configs@, *limits, *names),
                collected(results.take(i as int)) == Ok::<
                    Seq<(Seq<char>, DeshredDemand)>,
                    FilterError,
                >(listed(filters@)),
            decreases configs@.len() - i,
        {
            proof {
                lemma_collected_step(results, i as int);
            }
            let ghost before = filters@;
            match Self::new_filter(configs[i].0.as_str(), &configs[i].1, limits, names) {
                Ok(filter) => {
                    filters.push(filter);
                    assert(listed(filters@) =~= listed(before).push(filter@));
                },
                Err(e) => {
                    proof {
                        lemma_collected_error(results, i + 1);
                    }
                    return Err(e);
                },
            }
            i += 1;
        }
        assert(results.take(i as int) =~= results);
        Ok(FilterDeshredTransactions { filters })
    }

    /// The number of filters.
    pub fn len(&self) -> (r: usize)
        ensures
            r == self@.len(),
    {
        self.filters.len()
    }

    /// The demand of the filter at a position.
    pub fn get(&self, i: usize) -> (r: &FilterDeshredTransactionsInner)
        requires
            i < self@.len(),
        ensures
            r@ == self@[i as int].1,
    {
        &self.filters[i].1
    }

    /// Reads one filter of a request.
    fn new_filter(
        name: &str,
        filter: &SubscribeRequestFilterDeshredTransactions,
        limits: &FilterLimitsDeshredTransactions,
        names: &FilterNames,
    ) -> (r: FilterResult<(FilterName, FilterDeshredTransactionsInner)>)
        ensures
            agrees(r, requested_filter(name@, *filter, *limits, *names)),
    {
        if let Err(e) = FilterLimits::check_any(
            filter.vote.is_none() && filter.account_include.is_empty()
                && filter.account_exclude.is_empty() && filter.account_required.is_empty(),
            limits.any,
        ) {
            return Err(FilterError::LimitsCheck(e));
        }
        if let Err(e) = FilterLimits::check_pubkey_max(
            filter.account_include.len(),
            limits.account_include_max,
        ) {
            return Err(FilterError::LimitsCheck(e));
        }
        if let Err(e) = FilterLimits::check_pubkey_max(
            filter.account_exclude.len(),
            limits.account_exclude_max,
        ) {
            return Err(FilterError::LimitsCheck(e));
        }
        if let Err(e) = FilterLimits::check_pubkey_max(
            filter.account_required.len(),
            limits.account_required_max,
        ) {
            return Err(FilterError::LimitsCheck(e));
        }
        let name = match names.get(name) {
            Ok(name) => name,
            Err(e) => return Err(FilterError::Name(e)),
        };
        let account_include = match decode_pubkeys_into_set(
            filter.account_include.as_slice(),
            &limits.account_include_reject,
        ) {
            Ok(keys) => keys,
            Err(e) => return Err(e),
        };
        let account_exclude = match decode_pubkeys_into_set(
            filter.account_exclude.as_slice(),
            &PubkeySet::new(),
        ) {
            Ok(keys) => keys,
            Err(e) => return Err(e),
        };
        let account_required = match decode_pubkeys_into_set(
            filter.account_required.as_slice(),
            &PubkeySet::new(),
        ) {
            Ok(keys) => keys,
            Err(e) => return Err(e),
        };
        Ok(
            (
                name,
                FilterDeshredTransactionsInner {
                    vote: filter.vote,
                    account_include,
                    account_exclude,
                    account_required,
                },
            ),
        )
    }

    pub fn get_updates(&self, message: &MessageDeshredTransaction) -> (r: FilteredUpdatesDeshred)
        ensures
            deshred_updates_of(r@) == deshred_updates(self@, *message),
    {
        let mut filters: FilteredUpdateFilters = Vec::new();
        let mut i: usize = 0;
        proof {
            lemma_chosen_none(self@.take(0), met_by(*message));
            assert(names_of(filters@) =~= Seq::empty());
        }
        while i < self.filters.len()
            invariant
                i <= self.filters@.len(),
                names_of(filters@) == chosen(self@.take(i as int), met_by(*message)),
            decreases self.filters@.len() - i,
        {
            proof {
                lemma_chosen_step(self@, met_by(*message), i as int);
            }
            if self.filters[i].1.is_match(message) {
                let ghost before = filters@;
                filters.push(self.filters[i].0.clone());
                assert(names_of(filters@) =~= names_of(before).push(self@[i as int].0));
            }
            i += 1;
        }
        assert(self@.take(i as int) =~= self@);
        let mut updates: FilteredUpdatesDeshred = Vec::new();
        if !filters.is_empty() {
            updates.push(
                FilteredUpdateDeshred::new(
                    filters,
                    FilteredUpdateDeshredOneof::deshred_transaction(message),
                    message.created_at,
                ),
            );
        }
        assert(deshred_updates_of(updates@) =~= deshred_updates(self@, *message));
        updates
    }
}

} // verus!
