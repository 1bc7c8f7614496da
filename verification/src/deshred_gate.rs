//! Early filtering of transactions that are received.

use crate::account_keys::{all_keys, TxAccountKeysView};
use crate::demand::{AccountsDemand, DeshredDemand};
use crate::deshred_transactions::{FilterDeshredTransactions, FilterDeshredTransactionsInner};
use crate::gate::{lemma_merged_rules, merges, some_client_has, updated, views, ClientRules, Rule};
use crate::message::MessageDeshredTransaction;
use crate::pubkey::Pubkey;
use std::sync::Arc;
use vstd::prelude::*;

verus! {

/// A rule for transactions that are received, made from a filter.
#[derive(Debug)]
pub struct DeshredTransactionFilterRule {
    pub vote: Option<bool>,
    pub account_include: Vec<Pubkey>,
    pub account_exclude: Vec<Pubkey>,
    pub account_required: Vec<Pubkey>,
}

impl View for DeshredTransactionFilterRule {
    type V = DeshredDemand;

    open spec fn view(&self) -> DeshredDemand {
        DeshredDemand {
            vote: self.vote,
            accounts: AccountsDemand {
                included: self.account_include@.to_set(),
                excluded: self.account_exclude@.to_set(),
                required: self.account_required@.to_set(),
            },
        }
    }
}

impl Default for DeshredTransactionFilterRule {
    fn default() -> (r: Self)
        ensures
            r@ == DeshredDemand::none(),
            r.lists_each_once(),
    {
        let r = DeshredTransactionFilterRule {
            vote: None,
            account_include: Vec::new(),
            account_exclude: Vec::new(),
            account_required: Vec::new(),
        };
        assert(r@ =~~= DeshredDemand::none());
        r
    }
}

impl Clone for DeshredTransactionFilterRule {
    fn clone(&self) -> (r: Self)
        ensures
            r@ == self@,
            r.account_include@ == self.account_include@,
            r.account_exclude@ == self.account_exclude@,
            r.account_required@ == self.account_required@,
    {
        let account_include = self.account_include.clone();
        assert(account_include@ =~= self.account_include@);
        let account_exclude = self.account_exclude.clone();
        assert(account_exclude@ =~= self.account_exclude@);
        let account_required = self.account_required.clone();
        assert(account_required@ =~= self.account_required@);
        DeshredTransactionFilterRule {
            vote: self.vote,
            account_include,
            account_exclude,
            account_required,
        }
    }
}

impl Rule for DeshredTransactionFilterRule {
    fn duplicate(&self) -> (r: Self) {
        self.clone()
    }
}

impl DeshredTransactionFilterRule {
    /// No list names an account twice.
    pub open spec fn lists_each_once(&self) -> bool {
        &&& self.account_include@.no_duplicates()
        &&& self.account_exclude@.no_duplicates()
        &&& self.account_required@.no_duplicates()
    }

    pub fn from_inner(inner: &FilterDeshredTransactionsInner) -> (r: Self)
        ensures
            r@ == inner@,
            r.lists_each_once(),
    {
        DeshredTransactionFilterRule {
            vote: inner.vote,
            account_include: inner.account_include.to_vec(),
            account_exclude: inner.account_exclude.to_vec(),
            account_required: inner.account_required.to_vec(),
        }
    }

    pub fn matches_prepared(
        &self,
        tx_is_vote: bool,
        account_keys: &TxAccountKeysView<'_>,
    ) -> (r: bool)
        ensures
            r == self@.met(tx_is_vote, account_keys.keys()),
    {
        if let Some(expected_vote) = self.vote {
            if expected_vote != tx_is_vote {
                return false;
            }
        }
        if !self.account_include.is_empty() && !account_keys.any_listed(
            self.account_include.as_slice(),
        ) {
            proof {
                assert(self.account_include@.to_set().contains(self.account_include@[0]));
            }
            return false;
        }
        if account_keys.any_listed(self.account_exclude.as_slice()) {
            return false;
        }
        assert(self.account_include@.len() == 0
            ==> self.account_include@.to_set() =~= Set::empty());
        account_keys.contains_listed(self.account_required.as_slice())
    }
}

/// The demands of the filters of a list.
pub open spec fn demands_of(filters: Seq<(Seq<char>, DeshredDemand)>) -> Seq<DeshredDemand> {
    filters.map_values(|f: (Seq<char>, DeshredDemand)| f.1)
}

impl FilterDeshredTransactions {
    /// Appends a rule for each filter. It lets through what the filter accepts.
    pub fn collect_rules(&self, rules: &mut Vec<DeshredTransactionFilterRule>)
        ensures
            views(final(rules)@) == views(old(rules)@) + demands_of(self@),
            final(rules)@.take(old(rules)@.len() as int) == old(rules)@,
            forall|i: int|
                old(rules)@.len() <= i < final(rules)@.len() ==> (
                #[trigger] final(rules)@[i]).lists_each_once(),
    {
        let ghost demands = demands_of(self@);
        let mut i: usize = 0;
        assert(views(rules@) =~= views(old(rules)@) + demands.take(0));
        while i < self.len()
            invariant
                i <= self@.len(),
                demands == demands_of(self@),
                rules@.len() == old(rules)@.len() + i,
                views(rules@) == views(old(rules)@) + demands.take(i as int),
                rules@.take(old(rules)@.len() as int) =~= old(rules)@,
                forall|j: int|
                    old(rules)@.len() <= j < rules@.len()
                        ==> (#[trigger] rules@[j]).lists_each_once(),
            decreases self@.len() - i,
        {
            let ghost before = rules@;
            let rule = DeshredTransactionFilterRule::from_inner(self.get(i));
            rules.push(rule);
            proof {
                assert(views(rules@) =~= views(before).push(rule@));
                assert(demands.take(i + 1) =~= demands.take(i as int).push(demands[i as int]));
            }
            i += 1;
        }
        assert(demands.take(i as int) =~= demands);
    }
}

/// The accounts that a transaction loads to write and to read.
#[derive(Debug, Clone, Copy)]
pub struct LoadedAddresses<'a> {
    pub writable: &'a [Pubkey],
    pub readonly: &'a [Pubkey],
}

/// A transaction as it comes in, before it is run. The accounts that it loads may not be known.
#[derive(Debug, Clone, Copy)]
pub struct ReplicaDeshredTransactionInfo<'a> {
    pub is_vote: bool,
    pub static_account_keys: &'a [Pubkey],
    pub loaded_addresses: Option<LoadedAddresses<'a>>,
}

impl<'a> ReplicaDeshredTransactionInfo<'a> {
    /// The accounts of the transaction, as far as they are known.
    pub open spec fn keys(&self) -> Set<Pubkey> {
        match self.loaded_addresses {
            Some(loaded) => all_keys(self.static_account_keys@, loaded.writable@, loaded.readonly@),
            None => self.static_account_keys@.to_set(),
        }
    }

    pub fn account_keys(&self) -> (r: TxAccountKeysView<'a>)
        ensures
            r.keys() == self.keys(),
            r.static_keys@ == self.static_account_keys@,
            self.loaded_addresses is Some ==> r.loaded_writable@
                == self.loaded_addresses->0.writable@ && r.loaded_readonly@
                == self.loaded_addresses->0.readonly@,
            self.loaded_addresses is None ==> r.loaded_writable@.len() == 0
                && r.loaded_readonly@.len() == 0,
    {
        match self.loaded_addresses {
            Some(loaded) => TxAccountKeysView::new(
                self.static_account_keys,
                loaded.writable,
                loaded.readonly,
            ),
            None => {
                let r = TxAccountKeysView::new(self.static_account_keys, &[], &[]);
                assert(r.keys() =~= self.keys());
                r
            },
        }
    }
}

/// Some rule of some client lets a transaction with these accounts through.
pub open spec fn deshred_allowed(
    clients: Map<usize, Seq<DeshredDemand>>,
    is_vote: bool,
    keys: Set<Pubkey>,
) -> bool {
    exists|rule: DeshredDemand| #[trigger] some_client_has(clients, rule) && rule.met(is_vote, keys)
}

/// Some rule of a list lets a transaction with these accounts through.
pub open spec fn some_rule_matches(
    rules: Seq<DeshredDemand>,
    is_vote: bool,
    keys: Set<Pubkey>,
) -> bool {
    exists|rule: DeshredDemand| #[trigger] rules.contains(rule) && rule.met(is_vote, keys)
}

/// The list of the rules of all clients decides as the clients do.
pub proof fn lemma_merged_rules_decide(
    merged: Seq<DeshredDemand>,
    clients: Map<usize, Seq<DeshredDemand>>,
    is_vote: bool,
    keys: Set<Pubkey>,
)
    requires
        merges(merged, clients),
    ensures
        some_rule_matches(merged, is_vote, keys) == deshred_allowed(clients, is_vote, keys),
{
    assert forall|rule: DeshredDemand| #[trigger]
        merged.contains(rule) <==> some_client_has(clients, rule) by {
        lemma_merged_rules(merged, clients, rule);
    }
    if deshred_allowed(clients, is_vote, keys) {
        let rule = choose|rule: DeshredDemand| #[trigger]
            some_client_has(clients, rule) && rule.met(is_vote, keys);
        assert(merged.contains(rule));
    }
}

/// Tells whether some rule of a list lets a transaction with these accounts through.
pub fn any_rule_matches(
    rules: &[DeshredTransactionFilterRule],
    is_vote: bool,
    account_keys: &TxAccountKeysView<'_>,
) -> (r: bool)
    ensures
        r == some_rule_matches(views(rules@), is_vote, account_keys.keys()),
{
    let mut i: usize = 0;
    while i < rules.len()
        invariant
            i <= rules@.len(),
            forall|j: int|
                0 <= j < i ==> !(#[trigger] views(rules@)[j]).met(is_vote, account_keys.keys()),
        decreases rules@.len() - i,
    {
        if rules[i].matches_prepared(is_vote, account_keys) {
            assert(views(rules@)[i as int] == rules@[i as int]@);
            assert(views(rules@).contains(views(rules@)[i as int]));
            return true;
        }
        i += 1;
    }
    false
}

/// Lets those received transactions through that some rule of some client does.
#[derive(Debug)]
pub struct DeshredTransactionFilterGate {
    rules: ClientRules<DeshredTransactionFilterRule>,
}

impl View for DeshredTransactionFilterGate {
    type V = Map<usize, Seq<DeshredDemand>>;

    /// The rules of every client that has any.
    closed spec fn view(&self) -> Map<usize, Seq<DeshredDemand>> {
        self.rules@
    }
}

impl Default for DeshredTransactionFilterGate {
    fn default() -> (r: Self)
        ensures
            r@ == Map::<usize, Seq<DeshredDemand>>::empty(),
    {
        DeshredTransactionFilterGate { rules: ClientRules::new() }
    }
}

impl DeshredTransactionFilterGate {
    /// Gives a client its rules, in place of those that it had. Without rules it is no client.
    pub fn update_client_rules(
        &mut self,
        client_id: usize,
        rules: Vec<DeshredTransactionFilterRule>,
    )
        ensures
            final(self)@ == updated(old(self)@, client_id, views(rules@)),
    {
        self.rules.update_client_rules(client_id, rules);
    }

    pub fn remove_client(&mut self, client_id: usize)
        ensures
            final(self)@ == old(self)@.remove(client_id),
    {
        self.rules.remove_client(client_id);
    }

    /// The rules of all clients, to be looked at elsewhere.
    pub fn merged_rules(&self) -> (r: Arc<Vec<DeshredTransactionFilterRule>>)
        ensures
            merges(views(r@), self@),
    {
        self.rules.merged_rules()
    }

    /// Tells whether a transaction is let through.
    pub fn allows(&self, tx_info: &ReplicaDeshredTransactionInfo<'_>) -> (r: bool)
        ensures
            r == deshred_allowed(self@, tx_info.is_vote, tx_info.keys()),
    {
        self.allows_keys(tx_info.is_vote, &tx_info.account_keys())
    }

    /// Tells whether a transaction is let through of which a message was made.
    pub fn allows_message(&self, message: &MessageDeshredTransaction) -> (r: bool)
        ensures
            r == deshred_allowed(self@, message.transaction.is_vote, message.transaction.keys()),
    {
        let tx = &message.transaction;
        self.allows_keys(tx.is_vote, &tx.all_account_keys())
    }

    fn allows_keys(&self, is_vote: bool, account_keys: &TxAccountKeysView<'_>) -> (r: bool)
        ensures
            r == deshred_allowed(self@, is_vote, account_keys.keys()),
    {
        let rules = self.rules.as_slice();
        proof {
            lemma_merged_rules_decide(views(rules@), self@, is_vote, account_keys.keys());
        }
        any_rule_matches(rules, is_vote, account_keys)
    }
}

} // verus!
