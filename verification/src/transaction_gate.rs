//! Early filtering of transactions, before anything is made of them.

use crate::account_keys::{all_keys, TxAccountKeysView};
use crate::demand::{AccountsDemand, TransactionDemand};
use crate::gate::{lemma_merged_rules, merges, some_client_has, updated, views, ClientRules, Rule};
use crate::pubkey::{Pubkey, Signature};
use crate::pubkey_set::PubkeySet;
use crate::transactions::{FilterTransactions, FilterTransactionsInner};
use std::sync::Arc;
use vstd::prelude::*;

verus! {

/// A rule for transactions, made from a filter.
#[derive(Debug)]
pub struct TransactionFilterRule {
    pub vote: Option<bool>,
    pub failed: Option<bool>,
    pub signature: Option<Signature>,
    pub account_include: Vec<Pubkey>,
    pub account_exclude: Vec<Pubkey>,
    pub account_required: Vec<Pubkey>,
}

impl View for TransactionFilterRule {
    type V = TransactionDemand;

    open spec fn view(&self) -> TransactionDemand {
        TransactionDemand {
            vote: self.vote,
            failed: self.failed,
            signature: self.signature,
            accounts: AccountsDemand {
                included: self.account_include@.to_set(),
                excluded: self.account_exclude@.to_set(),
                required: self.account_required@.to_set(),
            },
        }
    }
}

impl Default for TransactionFilterRule {
    fn default() -> (r: Self)
        ensures
            r@ == TransactionDemand::none(),
            r.lists_each_once(),
    {
        let r = TransactionFilterRule {
            vote: None,
            failed: None,
            signature: None,
            account_include: Vec::new(),
            account_exclude: Vec::new(),
            account_required: Vec::new(),
        };
        assert(r@ =~~= TransactionDemand::none());
        r
    }
}

impl Clone for TransactionFilterRule {
    fn clone(&self) -> (r: Self)
        ensures
            r@ == self@,
            r.account_include@ == self.account_include@,
            r.account_exclude@ == self.account_exclude@,
            r.account_required@ == self.account_required@,
    {
        let account_include = self.account_include.clone();
        assert(account_include@ =~= self.account_include@);
        let account_exclude = self.account_exclude.clone();
        assert(account_exclude@ =~= self.account_exclude@);
        let account_required = self.account_required.clone();
        assert(account_required@ =~= self.account_required@);
        TransactionFilterRule {
            vote: self.vote,
            failed: self.failed,
            signature: self.signature,
            account_include,
            account_exclude,
            account_required,
        }
    }
}

impl Rule for TransactionFilterRule {
    fn duplicate(&self) -> (r: Self) {
        self.clone()
    }
}

impl TransactionFilterRule {
    /// No list names an account twice.
    pub open spec fn lists_each_once(&self) -> bool {
        &&& self.account_include@.no_duplicates()
        &&& self.account_exclude@.no_duplicates()
        &&& self.account_required@.no_duplicates()
    }

    pub fn from_inner(inner: &FilterTransactionsInner) -> (r: Self)
        ensures
            r@ == inner@,
            r.lists_each_once(),
    {
        TransactionFilterRule {
            vote: inner.vote,
            failed: inner.failed,
            signature: inner.signature,
            account_include: inner.account_include.to_vec(),
            account_exclude: inner.account_exclude.to_vec(),
            account_required: inner.account_required.to_vec(),
        }
    }

    pub fn matches_prepared(
        &self,
        tx_is_vote: bool,
        tx_is_failed: bool,
        signature: &Signature,
        account_keys: &TxAccountKeysView<'_>,
    ) -> (r: bool)
        ensures
            r == self@.met(
                tx_is_vote,
                tx_is_failed,
                Some(signature.bytes@),
                account_keys.keys(),
            ),
    {
        if let Some(expected_vote) = self.vote {
            if expected_vote != tx_is_vote {
                return false;
            }
        }
        if let Some(expected_failed) = self.failed {
            if expected_failed != tx_is_failed {
                return false;
            }
        }
        if let Some(expected_signature) = &self.signature {
            if !expected_signature.same(signature) {
                proof {
                    if expected_signature.bytes@ == signature.bytes@ {
                        assert(expected_signature.bytes =~= signature.bytes);
                    }
                }
                return false;
            }
        }
        if !self.account_include.is_empty() && !account_keys.any_listed(
            self.account_include.as_slice(),
        ) {
            proof {
                assert(self.account_include@.to_set().contains(self.account_include@[0]));
            }
            return false;
        }
        if account_keys.any_listed(self.account_exclude.as_slice()) {
            return false;
        }
        assert(self.account_include@.len() == 0
            ==> self.account_include@.to_set() =~= Set::empty());
        account_keys.contains_listed(self.account_required.as_slice())
    }
}

/// The demands of the filters of a list.
pub open spec fn demands_of(filters: Seq<(Seq<char>, TransactionDemand)>) -> Seq<
    TransactionDemand,
> {
    filters.map_values(|f: (Seq<char>, TransactionDemand)| f.1)
}

impl FilterTransactions {
    /// Appends a rule for each filter. It lets through what the filter accepts.
    pub fn collect_rules(&self, rules: &mut Vec<TransactionFilterRule>)
        ensures
            views(final(rules)@) == views(old(rules)@) + demands_of(self@.1),
            final(rules)@.take(old(rules)@.len() as int) == old(rules)@,
            forall|i: int|
                old(rules)@.len() <= i < final(rules)@.len() ==> (
                #[trigger] final(rules)@[i]).lists_each_once(),
    {
        let ghost demands = demands_of(self@.1);
        let mut i: usize = 0;
        assert(views(rules@) =~= views(old(rules)@) + demands.take(0));
        while i < self.len()
            invariant
                i <= self@.1.len(),
                demands == demands_of(self@.1),
                rules@.len() == old(rules)@.len() + i,
                views(rules@) == views(old(rules)@) + demands.take(i as int),
                rules@.take(old(rules)@.len() as int) =~= old(rules)@,
                forall|j: int|
                    old(rules)@.len() <= j < rules@.len()
                        ==> (#[trigger] rules@[j]).lists_each_once(),
            decreases self@.1.len() - i,
        {
            let ghost before = rules@;
            let rule = TransactionFilterRule::from_inner(self.get(i));
            rules.push(rule);
            proof {
                assert(views(rules@) =~= views(before).push(rule@));
                assert(demands.take(i + 1) =~= demands.take(i as int).push(demands[i as int]));
            }
            i += 1;
        }
        assert(demands.take(i as int) =~= demands);
    }
}

/// A transaction as it comes in, after it was run.
#[derive(Debug, Clone, Copy)]
pub struct ReplicaTransactionInfo<'a> {
    pub signature: &'a Signature,
    pub is_vote: bool,
    pub is_failed: bool,
    pub static_account_keys: &'a [Pubkey],
    pub loaded_writable: &'a [Pubkey],
    pub loaded_readonly: &'a [Pubkey],
}

impl<'a> ReplicaTransactionInfo<'a> {
    /// The accounts of the transaction.
    pub open spec fn keys(&self) -> Set<Pubkey> {
        all_keys(self.static_account_keys@, self.loaded_writable@, self.loaded_readonly@)
    }

    pub fn account_keys(&self) -> (r: TxAccountKeysView<'a>)
        ensures
            r.keys() == self.keys(),
            r.static_keys@ == self.static_account_keys@,
            r.loaded_writable@ == self.loaded_writable@,
            r.loaded_readonly@ == self.loaded_readonly@,
    {
        TxAccountKeysView::new(self.static_account_keys, self.loaded_writable, self.loaded_readonly)
    }

    /// The transaction has what a rule demands.
    pub open spec fn meets(&self, demand: TransactionDemand) -> bool {
        demand.met(self.is_vote, self.is_failed, Some(self.signature.bytes@), self.keys())
    }
}

/// Some rule of some client lets the transaction through.
pub open spec fn transaction_allowed(
    clients: Map<usize, Seq<TransactionDemand>>,
    tx_info: ReplicaTransactionInfo<'_>,
) -> bool {
    exists|rule: TransactionDemand| #[trigger]
        some_client_has(clients, rule) && tx_info.meets(rule)
}

/// Some rule of a list lets the transaction through.
pub open spec fn some_rule_matches(
    rules: Seq<TransactionDemand>,
    tx_info: ReplicaTransactionInfo<'_>,
) -> bool {
    exists|rule: TransactionDemand| #[trigger] rules.contains(rule) && tx_info.meets(rule)
}

/// The list of the rules of all clients decides as the clients do.
pub proof fn lemma_merged_rules_decide(
    merged: Seq<TransactionDemand>,
    clients: Map<usize, Seq<TransactionDemand>>,
    tx_info: ReplicaTransactionInfo<'_>,
)
    requires
        merges(merged, clients),
    ensures
        some_rule_matches(merged, tx_info) == transaction_allowed(clients, tx_info),
{
    assert forall|rule: TransactionDemand| #[trigger]
        merged.contains(rule) <==> some_client_has(clients, rule) by {
        lemma_merged_rules(merged, clients, rule);
    }
    if transaction_allowed(clients, tx_info) {
        let rule = choose|rule: TransactionDemand| #[trigger]
            some_client_has(clients, rule) && tx_info.meets(rule);
        assert(merged.contains(rule));
    }
}

/// Tells whether some rule of a list lets a transaction with these accounts through.
fn any_rule_matches(
    rules: &[TransactionFilterRule],
    tx_info: &ReplicaTransactionInfo<'_>,
    account_keys: &TxAccountKeysView<'_>,
) -> (r: bool)
    requires
        account_keys.keys() == tx_info.keys(),
    ensures
        r == some_rule_matches(views(rules@), *tx_info),
{
    let mut i: usize = 0;
    while i < rules.len()
        invariant
            i <= rules@.len(),
            account_keys.keys() == tx_info.keys(),
            forall|j: int| 0 <= j < i ==> !tx_info.meets(#[trigger] views(rules@)[j]),
        decreases rules@.len() - i,
    {
        if rules[i].matches_prepared(
            tx_info.is_vote,
            tx_info.is_failed,
            tx_info.signature,
            account_keys,
        ) {
            assert(views(rules@)[i as int] == rules@[i as int]@);
            assert(views(rules@).contains(views(rules@)[i as int]));
            return true;
        }
        i += 1;
    }
    false
}

/// The accounts of a transaction, where some rule of a list lets it through.
pub fn allowed_account_keys(
    rules: &[TransactionFilterRule],
    tx_info: &ReplicaTransactionInfo<'_>,
) -> (r: Option<PubkeySet>)
    ensures
        match r {
            Some(keys) => some_rule_matches(views(rules@), *tx_info) && keys@ == tx_info.keys(),
            None => !some_rule_matches(views(rules@), *tx_info),
        },
{
    let account_keys = tx_info.account_keys();
    if any_rule_matches(rules, tx_info, &account_keys) {
        Some(account_keys.to_hash_set())
    } else {
        None
    }
}

/// Lets those transactions through that some rule of some client does.
#[derive(Debug)]
pub struct TransactionFilterGate {
    rules: ClientRules<TransactionFilterRule>,
}

impl View for TransactionFilterGate {
    type V = Map<usize, Seq<TransactionDemand>>;

    /// The rules of every client that has any.
    closed spec fn view(&self) -> Map<usize, Seq<TransactionDemand>> {
        self.rules@
    }
}

impl Default for TransactionFilterGate {
    fn default() -> (r: Self)
        ensures
            r@ == Map::<usize, Seq<TransactionDemand>>::empty(),
    {
        TransactionFilterGate { rules: ClientRules::new() }
    }
}

impl TransactionFilterGate {
    /// Gives a client its rules, in place of those that it had. Without rules it is no client.
    pub fn update_client_rules(&mut self, client_id: usize, rules: Vec<TransactionFilterRule>)
        ensures
            final(self)@ == updated(old(self)@, client_id, views(rules@)),
    {
        self.rules.update_client_rules(client_id, rules);
    }

    pub fn remove_client(&mut self, client_id: usize)
        ensures
            final(self)@ == old(self)@.remove(client_id),
    {
        self.rules.remove_client(client_id);
    }

    /// The rules of all clients, to be looked at elsewhere.
    pub fn merged_rules(&self) -> (r: Arc<Vec<TransactionFilterRule>>)
        ensures
            merges(views(r@), self@),
    {
        self.rules.merged_rules()
    }

    /// Tells whether a transaction is let through.
    pub fn allows(&self, tx_info: &ReplicaTransactionInfo<'_>) -> (r: bool)
        ensures
            r == transaction_allowed(self@, *tx_info),
    {
        self.allows_and_account_keys(tx_info).is_some()
    }

    /// The accounts of a transaction, where it is let through.
    pub fn allows_and_account_keys(&self, tx_info: &ReplicaTransactionInfo<'_>) -> (r: Option<
        PubkeySet,
    >)
        ensures
            match r {
                Some(keys) => transaction_allowed(self@, *tx_info) && keys@ == tx_info.keys(),
                None => !transaction_allowed(self@, *tx_info),
            },
    {
        let rules = self.rules.as_slice();
        proof {
            lemma_merged_rules_decide(views(rules@), self@, *tx_info);
        }
        allowed_account_keys(rules, tx_info)
    }
}

} // verus!
