//! Filters on accounts.

use crate::account_gate::{AccountFilterRule, AccountRule};
use crate::accounts_state::{requested_state, FilterAccountsState, StateView};
use crate::data_slice::FilterAccountsDataSlice;
use crate::decode::{decode_pubkeys, decoded_pubkeys};
use crate::error::{
    agrees, collected, lemma_collected_error, lemma_collected_step, FilterError, FilterResult,
};
use crate::gate::views;
use crate::limits::{any_check, max_check, pubkey_max_check, FilterLimits, FilterLimitsAccounts};
use crate::listing::{chosen, lemma_chosen_none, lemma_chosen_step};
use crate::message::{MessageAccount, MessageAccountInfo};
use crate::name::{names_of, FilterName, FilterNames};
use crate::pubkey::{Pubkey, Signature};
use crate::pubkey_set::{keys_at, PubkeyPositions, PubkeySet};
use crate::request::SubscribeRequestFilterAccounts;
use crate::update::{
    once, updates_of, FilteredUpdate, FilteredUpdateFilters, FilteredUpdateOneof, FilteredUpdates,
    UpdateBody, UpdateView,
};
use std::ops::Range;
use vstd::prelude::*;

verus! {

/// What a filter demands of an account.
#[verifier::ext_equal]
pub struct AccountDemand {
    pub nonempty_txn_signature: Option<bool>,
    pub account: Set<Pubkey>,
    pub owner: Set<Pubkey>,
    pub state: StateView,
}

impl AccountDemand {
    /// The write came with a transaction or without, as demanded; the account is one of those
    /// named, where some are, and so is its owner; the conditions on its content hold.
    pub open spec fn met(self, account: MessageAccountInfo) -> bool {
        &&& self.nonempty_txn_signature is Some ==> self.nonempty_txn_signature == Some(
            account.txn_signature is Some,
        )
        &&& self.account != Set::<Pubkey>::empty() ==> self.account.contains(account.pubkey)
        &&& self.owner != Set::<Pubkey>::empty() ==> self.owner.contains(account.owner)
        &&& self.state.holds(account.data@, account.lamports)
    }

    /// The part of the demand that does not look at the content of the account.
    pub open spec fn rule(self) -> AccountRule {
        AccountRule {
            nonempty_txn_signature: self.nonempty_txn_signature,
            account: self.account,
            account_required: self.account != Set::<Pubkey>::empty(),
            owner: self.owner,
            owner_required: self.owner != Set::<Pubkey>::empty(),
        }
    }
}

/// The filter that a request asks for under a name.
pub open spec fn requested_filter(
    name: Seq<char>,
    filter: SubscribeRequestFilterAccounts,
    limits: FilterLimitsAccounts,
    names: FilterNames,
) -> FilterResult<(Seq<char>, AccountDemand)> {
    let account = decoded_pubkeys(filter.account@, limits.account_reject@);
    let owner = decoded_pubkeys(filter.owner@, limits.owner_reject@);
    let state = requested_state(filter.filters@);
    if let Err(e) = names.checked(name) {
        Err(FilterError::Name(e))
    } else if let Err(e) = any_check(
        filter.account@.len() == 0 && filter.owner@.len() == 0,
        limits.any,
    ) {
        Err(FilterError::LimitsCheck(e))
    } else if let Err(e) = pubkey_max_check(filter.account@.len() as int, limits.account_max) {
        Err(FilterError::LimitsCheck(e))
    } else if let Err(e) = pubkey_max_check(filter.owner@.len() as int, limits.owner_max) {
        Err(FilterError::LimitsCheck(e))
    } else if let Err(e) = account {
        Err(e)
    } else if let Err(e) = owner {
        Err(e)
    } else if let Err(e) = state {
        Err(e)
    } else {
        Ok(
            (
                name,
                AccountDemand {
                    nonempty_txn_signature: filter.nonempty_txn_signature,
                    account: account->Ok_0.to_set(),
                    owner: owner->Ok_0.to_set(),
                    state: state->Ok_0,
                },
            ),
        )
    }
}

/// What becomes of each filter that is asked for.
pub open spec fn each_requested(
    configs: Seq<(String, SubscribeRequestFilterAccounts)>,
    limits: FilterLimitsAccounts,
    names: FilterNames,
) -> Seq<FilterResult<(Seq<char>, AccountDemand)>> {
    configs.map_values(
        |c: (String, SubscribeRequestFilterAccounts)| requested_filter(c.0@, c.1, limits, names),
    )
}

/// The filters that a request asks for.
pub open spec fn requested_filters(
    configs: Seq<(String, SubscribeRequestFilterAccounts)>,
    limits: FilterLimitsAccounts,
    names: FilterNames,
) -> FilterResult<Seq<(Seq<char>, AccountDemand)>> {
    if let Err(e) = max_check(configs.len() as int, limits.max) {
        Err(FilterError::LimitsCheck(e))
    } else {
        collected(each_requested(configs, limits, names))
    }
}

/// The demands that an account meets.
pub open spec fn met_by(message: MessageAccount) -> spec_fn(AccountDemand) -> bool {
    |d: AccountDemand| d.met(*message.account)
}

/// The updates that filters give for an account: one with the names of all filters whose demand
/// it meets, if there are any.
pub open spec fn account_updates(
    filters: Seq<(Seq<char>, AccountDemand)>,
    message: MessageAccount,
    data_slice: Seq<Range<usize>>,
) -> Seq<UpdateView> {
    once(
        chosen(filters, met_by(message)),
        UpdateBody::Account {
            account: message.account,
            slot: message.slot,
            is_startup: message.is_startup,
            data_slice,
        },
        message.created_at,
    )
}

/// What filters demand whose parts lie apart.
spec fn gathered(
    filters: Seq<(FilterName, FilterAccountsState)>,
    nonempty_txn_signature: Seq<Option<bool>>,
    account: Set<(Pubkey, usize)>,
    owner: Set<(Pubkey, usize)>,
) -> Seq<(Seq<char>, AccountDemand)> {
    Seq::new(
        filters.len(),
        |i: int|
            (
                filters[i].0@,
                AccountDemand {
                    nonempty_txn_signature: nonempty_txn_signature[i],
                    account: keys_at(account, i as usize),
                    owner: keys_at(owner, i as usize),
                    state: filters[i].1@,
                },
            ),
    )
}

/// The pairs name positions below `len`, and the list tells which positions they name.
spec fn tells_positions(pairs: Set<(Pubkey, usize)>, required: Seq<bool>, len: int) -> bool {
    &&& required.len() == len
    &&& forall|k: Pubkey, p: usize| #[trigger] pairs.contains((k, p)) ==> p < len
    &&& forall|i: int|
        0 <= i < len ==> #[trigger] required[i] == (keys_at(pairs, i as usize) != Set::<
            Pubkey,
        >::empty())
}

/// Filters on accounts, by name. The addresses that they name are indexed: each comes with the
/// positions of the filters that name it.
#[derive(Debug)]
pub struct FilterAccounts {
    nonempty_txn_signature: Vec<Option<bool>>,
    account: PubkeyPositions,
    account_required: Vec<bool>,
    owner: PubkeyPositions,
    owner_required: Vec<bool>,
    filters: Vec<(FilterName, FilterAccountsState)>,
}

impl View for FilterAccounts {
    type V = Seq<(Seq<char>, AccountDemand)>;

    closed spec fn view(&self) -> Seq<(Seq<char>, AccountDemand)> {
        gathered(self.filters@, self.nonempty_txn_signature@, self.account@, self.owner@)
    }
}

impl Default for FilterAccounts {
    fn default() -> (r: Self)
        ensures
            r@ == Seq::<(Seq<char>, AccountDemand)>::empty(),
    {
        let r = FilterAccounts {
            nonempty_txn_signature: Vec::new(),
            account: PubkeyPositions::new(),
            account_required: Vec::new(),
            owner: PubkeyPositions::new(),
            owner_required: Vec::new(),
            filters: Vec::new(),
        };
        assert(r@ =~= Seq::<(Seq<char>, AccountDemand)>::empty());
        r
    }
}

impl Clone for FilterAccounts {
    fn clone(&self) -> (r: Self)
        ensures
            r@ == self@,
    {
        proof {
            use_type_invariant(self);
        }
        let mut filters: Vec<(FilterName, FilterAccountsState)> = Vec::new();
        let mut i: usize = 0;
        while i < self.filters.len()
            invariant
                i <= self.filters@.len(),
                filters@.len() == i,
                forall|j: int|
                    0 <= j < i ==> (#[trigger] filters@[j]).0@ == self.filters@[j].0@
                        && filters@[j].1@ == self.filters@[j].1@,
            decreases self.filters@.len() - i,
        {
            filters.push((self.filters[i].0.clone(), self.filters[i].1.clone()));
            i += 1;
        }
        let nonempty_txn_signature = self.nonempty_txn_signature.clone();
        assert(nonempty_txn_signature@ =~= self.nonempty_txn_signature@);
        let account_required = self.account_required.clone();
        assert(account_required@ =~= self.account_required@);
        let owner_required = self.owner_required.clone();
        assert(owner_required@ =~= self.owner_required@);
        let r = FilterAccounts {
            nonempty_txn_signature,
            account: self.account.duplicate(),
            account_required,
            owner: self.owner.duplicate(),
            owner_required,
            filters,
        };
        assert(r@ =~= self@);
        r
    }
}

impl FilterAccounts {
    #[verifier::type_invariant]
    spec fn inv(&self) -> bool {
        let len = self.filters@.len() as int;
        &&& self.account.wf()
        &&& self.owner.wf()
        &&& self.nonempty_txn_signature@.len() == len
        &&& tells_positions(self.account@, self.account_required@, len)
        &&& tells_positions(self.owner@, self.owner_required@, len)
    }

    /// The number of filters.
    pub fn len(&self) -> (r: usize)
        ensures
            r == self@.len(),
    {
        self.filters.len()
    }

    pub fn new(
        configs: &[(String, SubscribeRequestFilterAccounts)],
        limits: &FilterLimitsAccounts,
        names: &FilterNames,
    ) -> (r: FilterResult<Self>)
        ensures
            agrees(r, requested_filters(configs@, *limits, *names)),
    {
        if let Err(e) = FilterLimits::check_max(configs.len(), limits.max) {
            return Err(FilterError::LimitsCheck(e));
        }
        let ghost results = each_requested(configs@, *limits, *names);
        let mut nonempty_txn_signature: Vec<Option<bool>> = Vec::new();
        let mut account = PubkeyPositions::new();
        let mut account_required: Vec<bool> = Vec::new();
        let mut owner = PubkeyPositions::new();
        let mut owner_required: Vec<bool> = Vec::new();
        let mut filters: Vec<(FilterName, FilterAccountsState)> = Vec::new();
        let mut i: usize = 0;
        assert(results.take(0) =~= Seq::empty());
        assert(gathered(filters@, nonempty_txn_signature@, account@, owner@) =~= Seq::empty());
        while i < configs.len()
            invariant
                i <= configs@.len() <= limits.max,
                filters@.len() == i,
                nonempty_txn_signature@.len() == i,
                account.wf(),
                owner.wf(),
                tells_positions(account@, account_required@, i as int),
                tells_positions(owner@, owner_required@, i as int),
                results == each_requested(configs@, *limits, *names),
                collected(results.take(i as int)) == Ok::<
                    Seq<(Seq<char>, AccountDemand)>,
                    FilterError,
                >(gathered(filters@, nonempty_txn_signature@, account@, owner@)),
            decreases configs@.len() - i,
        {
            proof {
                lemma_collected_step(results, i as int);
            }
            match Self::new_filter(configs[i].0.as_str(), &configs[i].1, limits, names) {
                Ok((name, account_keys, owner_keys, state)) => {
                    let ghost listed = gathered(
                        filters@,
                        nonempty_txn_signature@,
                        account@,
                        owner@,
                    );
                    let ghost old_account = account@;
                    let ghost old_owner = owner@;
                    let ghost old_account_required = account_required@;
                    let ghost old_owner_required = owner_required@;
                    nonempty_txn_signature.push(configs[i].1.nonempty_txn_signature);
                    let required = Self::set(&mut account, i, account_keys.as_slice());
                    account_required.push(required);
                    let required = Self::set(&mut owner, i, owner_keys.as_slice());
                    owner_required.push(required);
                    filters.push((name, state));
                    proof {
                        lemma_new_position(
                            old_account,
                            old_account_required,
                            account_keys@,
                            i,
                            account@,
                        );
                        lemma_new_position(
                            old_owner,
                            old_owner_required,
                            owner_keys@,
                            i,
                            owner@,
                        );
                        assert(gathered(filters@, nonempty_txn_signature@, account@, owner@)
                            =~= listed.push(results[i as int]->Ok_0));
                    }
                },
                Err(e) => {
                    proof {
                        lemma_collected_error(results, i + 1);
                    }
                    return Err(e);
                },
            }
            i += 1;
        }
        assert(results.take(i as int) =~= results);
        Ok(
            FilterAccounts {
                nonempty_txn_signature,
                account,
                account_required,
                owner,
                owner_required,
                filters,
            },
        )
    }

    /// Reads one filter of a request: its name, the accounts and the owners that it names, and
    /// its conditions.
    fn new_filter(
        name: &str,
        filter: &SubscribeRequestFilterAccounts,
        limits: &FilterLimitsAccounts,
        names: &FilterNames,
    ) -> (r: FilterResult<(FilterName, Vec<Pubkey>, Vec<Pubkey>, FilterAccountsState)>)
        ensures
            match (r, requested_filter(name@, *filter, *limits, *names)) {
                (Ok((name, account, owner, state)), Ok(wanted)) => {
                    &&& name@ == wanted.0
                    &&& wanted.1 == AccountDemand {
                        nonempty_txn_signature: filter.nonempty_txn_signature,
                        account: account@.to_set(),
                        owner: owner@.to_set(),
                        state: state@,
                    }
                },
                (Err(e), Err(wanted)) => e == wanted,
                _ => false,
            },
    {
        let name = match names.get(name) {
            Ok(name) => name,
            Err(e) => return Err(FilterError::Name(e)),
        };
        if let Err(e) = FilterLimits::check_any(
            filter.account.is_empty() && filter.owner.is_empty(),
            limits.any,
        ) {
            return Err(FilterError::LimitsCheck(e));
        }
        if let Err(e) = FilterLimits::check_pubkey_max(filter.account.len(), limits.account_max) {
            return Err(FilterError::LimitsCheck(e));
        }
        if let Err(e) = FilterLimits::check_pubkey_max(filter.owner.len(), limits.owner_max) {
            return Err(FilterError::LimitsCheck(e));
        }
        let account = match decode_pubkeys(filter.account.as_slice(), &limits.account_reject) {
            Ok(keys) => keys,
            Err(e) => return Err(e),
        };
        let owner = match decode_pubkeys(filter.owner.as_slice(), &limits.owner_reject) {
            Ok(keys) => keys,
            Err(e) => return Err(e),
        };
        let state = match FilterAccountsState::new(filter.filters.as_slice()) {
            Ok(state) => state,
            Err(e) => return Err(e),
        };
        Ok((name, account, owner, state))
    }

    /// Gives every address the position, and tells whether one of them did not have it.
    fn set(map: &mut PubkeyPositions, position: usize, keys: &[Pubkey]) -> (r: bool)
        requires
            old(map).wf(),
        ensures
            final(map).wf(),
            final(map)@ == old(map)@.union(at_position(keys@, position)),
            r == exists|k: Pubkey| #[trigger]
                keys@.contains(k) && !old(map)@.contains((k, position)),
    {
        let mut required = false;
        let mut i: usize = 0;
        assert(map@ =~= old(map)@.union(at_position(keys@.take(0), position)));
        while i < keys.len()
            invariant
                i <= keys@.len(),
                map.wf(),
                map@ == old(map)@.union(at_position(keys@.take(i as int), position)),
                required == exists|k: Pubkey| #[trigger]
                    keys@.take(i as int).contains(k) && !old(map)@.contains((k, position)),
            decreases keys@.len() - i,
        {
            let ghost less = keys@.take(i as int);
            let ghost more = keys@.take(i + 1);
            let ghost was = required;
            let added = map.insert(keys[i], position);
            if added {
                required = true;
            }
            proof {
                assert(more =~= less.push(keys@[i as int]));
                assert(more[i as int] == keys@[i as int]);
                assert forall|k: Pubkey| #[trigger]
                    more.contains(k) <==> less.contains(k) || k == keys@[i as int] by {
                    if less.contains(k) {
                        let n = choose|n: int| 0 <= n < less.len() && less[n] == k;
                        assert(more[n] == k);
                    }
                }
                assert(map@ =~= old(map)@.union(at_position(more, position)));
                if was {
                    let k = choose|k: Pubkey| #[trigger]
                        less.contains(k) && !old(map)@.contains((k, position));
                    assert(more.contains(k));
                } else if added {
                    assert(more.contains(keys@[i as int]));
                } else {
                    assert forall|k: Pubkey| more.contains(k) implies old(map)@.contains(
                        (k, position),
                    ) by {
                        if less.contains(k) {
                        } else {
                            assert(!less.contains(k));
                        }
                    }
                }
            }
            i += 1;
        }
        assert(keys@.take(i as int) =~= keys@);
        required
    }
}

impl FilterAccounts {
    /// Appends a rule for each filter. It lets through what the filter might accept.
    pub fn collect_rules(&self, rules: &mut Vec<AccountFilterRule>)
        ensures
            views(final(rules)@) == views(old(rules)@) + rules_of(self@),
            final(rules)@.take(old(rules)@.len() as int) == old(rules)@,
    {
        proof {
            use_type_invariant(self);
        }
        let mut account = self.account.by_position(self.filters.len());
        let mut owner = self.owner.by_position(self.filters.len());
        let ghost accounts = account@;
        let ghost owners = owner@;
        let mut i: usize = 0;
        assert(views(rules@) =~= views(old(rules)@) + rules_of(self@).take(
            0,
        ));
        while i < self.filters.len()
            invariant
                self.inv(),
                i <= self.filters@.len(),
                account@.len() == self.filters@.len(),
                owner@.len() == self.filters@.len(),
                accounts.len() == self.filters@.len(),
                owners.len() == self.filters@.len(),
                forall|p: int| i <= p < accounts.len() ==> #[trigger] account@[p] == accounts[p],
                forall|p: int| i <= p < owners.len() ==> #[trigger] owner@[p] == owners[p],
                forall|p: usize|
                    p < accounts.len() ==> (#[trigger] accounts[p as int])@ == keys_at(
                        self.account@,
                        p,
                    ),
                forall|p: usize|
                    p < owners.len() ==> (#[trigger] owners[p as int])@ == keys_at(self.owner@, p),
                views(rules@) == views(old(rules)@) + rules_of(self@).take(
                    i as int,
                ),
                rules@.len() == old(rules)@.len() + i,
                rules@.take(old(rules)@.len() as int) =~= old(rules)@,
            decreases self.filters@.len() - i,
        {
            let mut account_keys = PubkeySet::new();
            std::mem::swap(&mut account_keys, &mut account[i]);
            let mut owner_keys = PubkeySet::new();
            std::mem::swap(&mut owner_keys, &mut owner[i]);
            let ghost before = rules@;
            let rule = AccountFilterRule::new(
                self.nonempty_txn_signature[i],
                account_keys,
                self.account_required[i],
                owner_keys,
                self.owner_required[i],
            );
            rules.push(rule);
            proof {
                assert(accounts[i as int]@ == keys_at(self.account@, i));
                assert(owners[i as int]@ == keys_at(self.owner@, i));
                assert(rule@ == rules_of(self@)[i as int]);
                assert(views(rules@) =~= views(before).push(rule@));
                assert(rules_of(self@).take(i + 1) =~= rules_of(self@).take(i as int).push(
                    rules_of(self@)[i as int],
                ));
            }
            i += 1;
        }
        assert(rules_of(self@).take(i as int) =~= rules_of(self@));
    }

    pub fn get_updates(
        &self,
        message: &MessageAccount,
        accounts_data_slice: &FilterAccountsDataSlice,
    ) -> (r: FilteredUpdates)
        ensures
            updates_of(r@) == account_updates(self@, *message, accounts_data_slice@),
    {
        proof {
            use_type_invariant(self);
        }
        let account = &message.account;
        let mut filter = FilterAccountsMatch::new(self);
        filter.match_txn_signature(&account.txn_signature);
        filter.match_account(&account.pubkey);
        filter.match_owner(&account.owner);
        filter.match_data_lamports(account.data.as_slice(), account.lamports);
        assert forall|i: int| 0 <= i < self@.len() implies filter.passes(i) == met_by(*message)(
            (#[trigger] self@[i]).1,
        ) by {
            let demand = self@[i].1;
            assert(self.account_required@[i] == (demand.account != Set::<Pubkey>::empty()));
            assert(self.owner_required@[i] == (demand.owner != Set::<Pubkey>::empty()));
        }
        let filters = filter.get_filters(Ghost(met_by(*message)));
        FilteredUpdate::once(
            filters,
            FilteredUpdateOneof::account(message, accounts_data_slice.clone()),
            message.created_at,
        )
    }
}

/// Which filters an account has matched so far, and in which respect: for each position whether
/// the filter there did.
#[derive(Debug)]
struct FilterAccountsMatch<'a> {
    filter: &'a FilterAccounts,
    nonempty_txn_signature: Vec<bool>,
    account: Vec<bool>,
    owner: Vec<bool>,
    data: Vec<bool>,
}

/// As many times `false`.
fn all_false(len: usize) -> (r: Vec<bool>)
    ensures
        r@ == Seq::new(len as nat, |i: int| false),
{
    let mut flags: Vec<bool> = Vec::new();
    while flags.len() < len
        invariant
            flags@ == Seq::new(flags@.len(), |i: int| false),
            flags@.len() <= len,
        decreases len - flags@.len(),
    {
        flags.push(false);
        assert(flags@ =~= Seq::new(flags@.len(), |i: int| false));
    }
    flags
}

impl<'a> FilterAccountsMatch<'a> {
    spec fn wf(&self) -> bool {
        &&& self.filter.inv()
        &&& self.nonempty_txn_signature@.len() == self.filter@.len()
        &&& self.account@.len() == self.filter@.len()
        &&& self.owner@.len() == self.filter@.len()
        &&& self.data@.len() == self.filter@.len()
    }

    /// The filter at a position has matched in every respect in which it must.
    spec fn passes(&self, i: int) -> bool {
        &&& self.filter.nonempty_txn_signature@[i] is Some ==> self.nonempty_txn_signature@[i]
        &&& self.filter.account_required@[i] ==> self.account@[i]
        &&& self.filter.owner_required@[i] ==> self.owner@[i]
        &&& !self.filter.filters@[i].1@.is_empty() ==> self.data@[i]
    }

    fn new(filter: &'a FilterAccounts) -> (r: Self)
        ensures
            r.wf(),
            r.filter == filter,
            forall|i: int|
                #![auto]
                0 <= i < filter@.len() ==> {
                    &&& !r.nonempty_txn_signature@[i]
                    &&& !r.account@[i]
                    &&& !r.owner@[i]
                    &&& !r.data@[i]
                },
    {
        proof {
            use_type_invariant(filter);
        }
        let len: usize = filter.filters.len();
        FilterAccountsMatch {
            filter,
            nonempty_txn_signature: all_false(len),
            account: all_false(len),
            owner: all_false(len),
            data: all_false(len),
        }
    }

    /// Marks the filters that name an address.
    fn extend(flags: &mut Vec<bool>, map: &PubkeyPositions, key: &Pubkey)
        requires
            map.wf(),
            forall|k: Pubkey, p: usize| #[trigger]
                map@.contains((k, p)) ==> p < old(flags)@.len(),
        ensures
            final(flags)@.len() == old(flags)@.len(),
            forall|i: usize|
                i < old(flags)@.len() ==> #[trigger] final(flags)@[i as int] == (
                old(flags)@[i as int] || map@.contains((*key, i))),
    {
        let positions = map.get(key);
        let mut n: usize = 0;
        while n < positions.len()
            invariant
                n <= positions@.len(),
                flags@.len() == old(flags)@.len(),
                forall|p: usize| #[trigger]
                    positions@.contains(p) == map@.contains((*key, p)),
                forall|k: Pubkey, p: usize| #[trigger]
                    map@.contains((k, p)) ==> p < old(flags)@.len(),
                forall|i: usize|
                    i < old(flags)@.len() ==> #[trigger] flags@[i as int] == (old(flags)@[i as int]
                        || positions@.take(n as int).contains(i)),
            decreases positions@.len() - n,
        {
            let position: usize = positions[n];
            assert(positions@.contains(position));
            flags.set(position, true);
            proof {
                let less = positions@.take(n as int);
                let more = positions@.take(n + 1);
                assert(more =~= less.push(position));
                assert(more[n as int] == position);
                assert forall|i: usize| i < old(flags)@.len() implies #[trigger] flags@[i as int]
                    == (old(flags)@[i as int] || more.contains(i)) by {
                    if less.contains(i) {
                        let m = choose|m: int| 0 <= m < less.len() && less[m] == i;
                        assert(more[m] == i);
                    }
                    if more.contains(i) && i != position {
                        let m = choose|m: int| 0 <= m < more.len() && more[m] == i;
                        assert(less[m] == i);
                    }
                }
            }
            n += 1;
        }
        assert(positions@.take(n as int) =~= positions@);
    }

    fn match_txn_signature(&mut self, txn_signature: &Option<Signature>)
        requires
            old(self).wf(),
        ensures
            final(self).wf(),
            final(self).filter == old(self).filter,
            final(self).account == old(self).account,
            final(self).owner == old(self).owner,
            final(self).data == old(self).data,
            forall|i: int|
                0 <= i < old(self).filter@.len() ==>
                    #[trigger] final(self).nonempty_txn_signature@[i] == (
                old(self).nonempty_txn_signature@[i] || old(self).filter.nonempty_txn_signature@[i]
                    == Some(txn_signature is Some)),
    {
        let mut i: usize = 0;
        while i < self.filter.nonempty_txn_signature.len()
            invariant
                self.wf(),
                self.filter == old(self).filter,
                self.account == old(self).account,
                self.owner == old(self).owner,
                self.data == old(self).data,
                i <= self.filter@.len(),
                forall|j: int|
                    0 <= j < i ==> #[trigger] self.nonempty_txn_signature@[j] == (
                    old(self).nonempty_txn_signature@[j]
                        || old(self).filter.nonempty_txn_signature@[j] == Some(
                        txn_signature is Some,
                    )),
                forall|j: int|
                    i <= j < self.filter@.len() ==> #[trigger] self.nonempty_txn_signature@[j]
                        == old(self).nonempty_txn_signature@[j],
            decreases self.filter@.len() - i,
        {
            if let Some(nonempty_txn_signature) = self.filter.nonempty_txn_signature[i] {
                if nonempty_txn_signature == txn_signature.is_some() {
                    self.nonempty_txn_signature.set(i, true);
                }
            }
            i += 1;
        }
    }

    fn match_account(&mut self, pubkey: &Pubkey)
        requires
            old(self).wf(),
        ensures
            final(self).wf(),
            final(self).filter == old(self).filter,
            final(self).nonempty_txn_signature == old(self).nonempty_txn_signature,
            final(self).owner == old(self).owner,
            final(self).data == old(self).data,
            forall|i: int|
                0 <= i < old(self).filter@.len() ==> #[trigger] final(self).account@[i] == (
                old(self).account@[i] || old(self).filter@[i].1.account.contains(*pubkey)),
    {
        Self::extend(&mut self.account, &self.filter.account, pubkey);
        assert forall|i: int| 0 <= i < old(self).filter@.len() implies #[trigger] self.account@[i]
            == (old(self).account@[i] || old(self).filter@[i].1.account.contains(*pubkey)) by {
            assert(i < self.filter.filters.len());
            assert(self.account@[(i as usize) as int] == self.account@[i]);
        }
    }

    fn match_owner(&mut self, pubkey: &Pubkey)
        requires
            old(self).wf(),
        ensures
            final(self).wf(),
            final(self).filter == old(self).filter,
            final(self).nonempty_txn_signature == old(self).nonempty_txn_signature,
            final(self).account == old(self).account,
            final(self).data == old(self).data,
            forall|i: int|
                0 <= i < old(self).filter@.len() ==> #[trigger] final(self).owner@[i] == (
                old(self).owner@[i] || old(self).filter@[i].1.owner.contains(*pubkey)),
    {
        Self::extend(&mut self.owner, &self.filter.owner, pubkey);
        assert forall|i: int| 0 <= i < old(self).filter@.len() implies #[trigger] self.owner@[i]
            == (old(self).owner@[i] || old(self).filter@[i].1.owner.contains(*pubkey)) by {
            assert(i < self.filter.filters.len());
            assert(self.owner@[(i as usize) as int] == self.owner@[i]);
        }
    }

    fn match_data_lamports(&mut self, data: &[u8], lamports: u64)
        requires
            old(self).wf(),
        ensures
            final(self).wf(),
            final(self).filter == old(self).filter,
            final(self).nonempty_txn_signature == old(self).nonempty_txn_signature,
            final(self).account == old(self).account,
            final(self).owner == old(self).owner,
            forall|i: int|
                0 <= i < old(self).filter@.len() ==> #[trigger] final(self).data@[i] == (
                old(self).data@[i] || old(self).filter@[i].1.state.holds(data@, lamports)),
    {
        let mut i: usize = 0;
        while i < self.filter.filters.len()
            invariant
                self.wf(),
                self.filter == old(self).filter,
                self.nonempty_txn_signature == old(self).nonempty_txn_signature,
                self.account == old(self).account,
                self.owner == old(self).owner,
                i <= self.filter@.len(),
                forall|j: int|
                    0 <= j < i ==> #[trigger] self.data@[j] == (
                    old(self).data@[j] || old(self).filter@[j].1.state.holds(data@, lamports)),
                forall|j: int|
                    i <= j < self.filter@.len() ==> #[trigger] self.data@[j] == old(self).data@[j],
            decreases self.filter@.len() - i,
        {
            if self.filter.filters[i].1.is_match(data, lamports) {
                self.data.set(i, true);
            }
            i += 1;
        }
    }

    /// The names of the filters that have matched in every respect in which they must.
    fn get_filters(&self, Ghost(accepts): Ghost<spec_fn(AccountDemand) -> bool>) -> (r:
        FilteredUpdateFilters)
        requires
            self.wf(),
            forall|i: int|
                0 <= i < self.filter@.len() ==> self.passes(i) == accepts(
                    (#[trigger] self.filter@[i]).1,
                ),
        ensures
            names_of(r@) == chosen(self.filter@, accepts),
    {
        let af = self.filter;
        let mut names: FilteredUpdateFilters = Vec::new();
        let mut i: usize = 0;
        proof {
            lemma_chosen_none(af@.take(0), accepts);
            assert(names_of(names@) =~= Seq::empty());
        }
        while i < af.filters.len()
            invariant
                self.wf(),
                af == self.filter,
                i <= af@.len(),
                forall|j: int|
                    0 <= j < af@.len() ==> self.passes(j) == accepts((#[trigger] af@[j]).1),
                names_of(names@) == chosen(af@.take(i as int), accepts),
            decreases af@.len() - i,
        {
            proof {
                lemma_chosen_step(af@, accepts, i as int);
                assert(self.passes(i as int) == accepts(af@[i as int].1));
            }
            let signature_missing = af.nonempty_txn_signature[i].is_some()
                && !self.nonempty_txn_signature[i];
            let account_missing = af.account_required[i] && !self.account[i];
            let owner_missing = af.owner_required[i] && !self.owner[i];
            let data_missing = !af.filters[i].1.is_empty() && !self.data[i];
            if !signature_missing && !account_missing && !owner_missing && !data_missing {
                let ghost before = names@;
                names.push(af.filters[i].0.clone());
                assert(names_of(names@) =~= names_of(before).push(af@[i as int].0));
            }
            i += 1;
        }
        assert(af@.take(i as int) =~= af@);
        names
    }
}

/// The rules that filters make.
pub open spec fn rules_of(filters: Seq<(Seq<char>, AccountDemand)>) -> Seq<AccountRule> {
    filters.map_values(|f: (Seq<char>, AccountDemand)| f.1.rule())
}

/// Every address of a list paired with a position.
spec fn at_position(keys: Seq<Pubkey>, position: usize) -> Set<(Pubkey, usize)> {
    Set::new(|p: (Pubkey, usize)| keys.contains(p.0) && p.1 == position)
}

/// Pairs for the next position leave those of the others alone.
proof fn lemma_new_position(
    pairs: Set<(Pubkey, usize)>,
    required: Seq<bool>,
    keys: Seq<Pubkey>,
    position: usize,
    more: Set<(Pubkey, usize)>,
)
    requires
        tells_positions(pairs, required, position as int),
        more == pairs.union(at_position(keys, position)),
    ensures
        forall|p: usize|
            p < position ==> #[trigger] keys_at(more, p) == keys_at(pairs, p),
        keys_at(more, position) == keys.to_set(),
        (exists|k: Pubkey| #[trigger] keys.contains(k) && !pairs.contains((k, position))) == (
        keys_at(more, position) != Set::<Pubkey>::empty()),
        forall|k: Pubkey, p: usize| #[trigger] more.contains((k, p)) ==> p <= position,
{
    assert forall|p: usize| p < position implies #[trigger] keys_at(more, p) == keys_at(
        pairs,
        p,
    ) by {
        assert(keys_at(more, p) =~= keys_at(pairs, p));
    }
    assert(keys_at(more, position) =~= keys.to_set());
    if keys.len() > 0 {
        assert(keys.contains(keys[0]));
        assert(keys.to_set().contains(keys[0]));
    } else {
        assert(keys.to_set() =~= Set::<Pubkey>::empty());
    }
}

} // verus!
