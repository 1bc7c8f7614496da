//! Early filtering of accounts, before anything is made of them.

use crate::gate::{lemma_merged_rules, merges, some_client_has, updated, views, ClientRules, Rule};
use crate::pubkey::Pubkey;
use crate::pubkey_set::PubkeySet;
use std::sync::Arc;
use vstd::prelude::*;

verus! {

/// What a rule lets through.
#[verifier::ext_equal]
pub struct AccountRule {
    pub nonempty_txn_signature: Option<bool>,
    pub account: Set<Pubkey>,
    pub account_required: bool,
    pub owner: Set<Pubkey>,
    pub owner_required: bool,
}

impl AccountRule {
    /// Everything is let through.
    pub open spec fn any() -> Self {
        AccountRule {
            nonempty_txn_signature: None,
            account: Set::empty(),
            account_required: false,
            owner: Set::empty(),
            owner_required: false,
        }
    }

    pub open spec fn matches(self, has_txn_signature: bool, pubkey: Pubkey, owner: Pubkey) -> bool {
        &&& self.nonempty_txn_signature is Some ==> self.nonempty_txn_signature == Some(
            has_txn_signature,
        )
        &&& self.account_required ==> self.account.contains(pubkey)
        &&& self.owner_required ==> self.owner.contains(owner)
    }
}

/// A rule for accounts, made from a filter.
#[derive(Debug)]
pub struct AccountFilterRule {
    nonempty_txn_signature: Option<bool>,
    account: PubkeySet,
    account_required: bool,
    owner: PubkeySet,
    owner_required: bool,
}

impl View for AccountFilterRule {
    type V = AccountRule;

    closed spec fn view(&self) -> AccountRule {
        AccountRule {
            nonempty_txn_signature: self.nonempty_txn_signature,
            account: self.account@,
            account_required: self.account_required,
            owner: self.owner@,
            owner_required: self.owner_required,
        }
    }
}

impl Default for AccountFilterRule {
    fn default() -> (r: Self)
        ensures
            r@ == AccountRule::any(),
    {
        AccountFilterRule {
            nonempty_txn_signature: None,
            account: PubkeySet::new(),
            account_required: false,
            owner: PubkeySet::new(),
            owner_required: false,
        }
    }
}

impl Clone for AccountFilterRule {
    fn clone(&self) -> (r: Self)
        ensures
            r@ == self@,
    {
        AccountFilterRule {
            nonempty_txn_signature: self.nonempty_txn_signature,
            account: self.account.clone(),
            account_required: self.account_required,
            owner: self.owner.clone(),
            owner_required: self.owner_required,
        }
    }
}

impl AccountFilterRule {
    pub fn new(
        nonempty_txn_signature: Option<bool>,
        account: PubkeySet,
        account_required: bool,
        owner: PubkeySet,
        owner_required: bool,
    ) -> (r: Self)
        ensures
            r@ == (AccountRule {
                nonempty_txn_signature,
                account: account@,
                account_required,
                owner: owner@,
                owner_required,
            }),
    {
        AccountFilterRule {
            nonempty_txn_signature,
            account,
            account_required,
            owner,
            owner_required,
        }
    }

    pub fn matches_prepared(
        &self,
        has_txn_signature: bool,
        pubkey: &Pubkey,
        owner: &Pubkey,
    ) -> (r: bool)
        ensures
            r == self@.matches(has_txn_signature, *pubkey, *owner),
    {
        if let Some(nonempty_txn_signature) = self.nonempty_txn_signature {
            if nonempty_txn_signature != has_txn_signature {
                return false;
            }
        }
        if self.account_required && !self.account.contains(pubkey) {
            return false;
        }
        if self.owner_required && !self.owner.contains(owner) {
            return false;
        }
        true
    }
}

impl Rule for AccountFilterRule {
    fn duplicate(&self) -> (r: Self) {
        self.clone()
    }
}

/// An account as it comes in: addresses in bytes, and whether a transaction wrote it.
#[derive(Debug, Clone, Copy)]
pub struct ReplicaAccountInfo<'a> {
    pub pubkey: &'a [u8],
    pub owner: &'a [u8],
    pub has_txn: bool,
}

/// Some rule of some client lets the account through.
pub open spec fn account_allowed(
    clients: Map<usize, Seq<AccountRule>>,
    has_txn_signature: bool,
    pubkey: Pubkey,
    owner: Pubkey,
) -> bool {
    exists|rule: AccountRule| #[trigger]
        some_client_has(clients, rule) && rule.matches(has_txn_signature, pubkey, owner)
}

/// Some rule of a list lets the account through.
pub open spec fn some_rule_matches(
    rules: Seq<AccountRule>,
    has_txn_signature: bool,
    pubkey: Pubkey,
    owner: Pubkey,
) -> bool {
    exists|rule: AccountRule| #[trigger]
        rules.contains(rule) && rule.matches(has_txn_signature, pubkey, owner)
}

/// The list of the rules of all clients decides as the clients do.
pub proof fn lemma_merged_rules_decide(
    merged: Seq<AccountRule>,
    clients: Map<usize, Seq<AccountRule>>,
    has_txn_signature: bool,
    pubkey: Pubkey,
    owner: Pubkey,
)
    requires
        merges(merged, clients),
    ensures
        some_rule_matches(merged, has_txn_signature, pubkey, owner) == account_allowed(
            clients,
            has_txn_signature,
            pubkey,
            owner,
        ),
{
    assert forall|rule: AccountRule| #[trigger]
        merged.contains(rule) <==> some_client_has(clients, rule) by {
        lemma_merged_rules(merged, clients, rule);
    }
    if account_allowed(clients, has_txn_signature, pubkey, owner) {
        let rule = choose|rule: AccountRule| #[trigger]
            some_client_has(clients, rule) && rule.matches(has_txn_signature, pubkey, owner);
        assert(merged.contains(rule));
    }
}

/// Tells whether some rule of a list lets the account through.
pub fn any_rule_matches(
    rules: &[AccountFilterRule],
    has_txn_signature: bool,
    pubkey: &Pubkey,
    owner: &Pubkey,
) -> (r: bool)
    ensures
        r == some_rule_matches(views(rules@), has_txn_signature, *pubkey, *owner),
{
    let mut i: usize = 0;
    while i < rules.len()
        invariant
            i <= rules@.len(),
            forall|j: int|
                0 <= j < i ==> !(#[trigger] views(rules@)[j]).matches(
                    has_txn_signature,
                    *pubkey,
                    *owner,
                ),
        decreases rules@.len() - i,
    {
        if rules[i].matches_prepared(has_txn_signature, pubkey, owner) {
            assert(views(rules@)[i as int] == rules@[i as int]@);
            assert(views(rules@).contains(views(rules@)[i as int]));
            return true;
        }
        i += 1;
    }
    false
}

/// Tells whether some rule of a list lets an account through that comes in. What is no address
/// is not let through.
pub fn any_rule_allows(rules: &[AccountFilterRule], account: &ReplicaAccountInfo<'_>) -> (r: bool)
    ensures
        r == exists|pubkey: Pubkey, owner: Pubkey|
            {
                &&& pubkey.bytes@ == account.pubkey@
                &&& owner.bytes@ == account.owner@
                &&& #[trigger] some_rule_matches(views(rules@), account.has_txn, pubkey, owner)
            },
{
    let pubkey = match Pubkey::from_bytes(account.pubkey) {
        Some(pubkey) => pubkey,
        None => return false,
    };
    let owner = match Pubkey::from_bytes(account.owner) {
        Some(owner) => owner,
        None => return false,
    };
    assert forall|p: Pubkey, o: Pubkey|
        p.bytes@ == account.pubkey@ && o.bytes@ == account.owner@ && #[trigger] some_rule_matches(
            views(rules@),
            account.has_txn,
            p,
            o,
        ) implies p == pubkey && o == owner by {
        assert(p.bytes =~= pubkey.bytes);
        assert(o.bytes =~= owner.bytes);
    }
    any_rule_matches(rules, account.has_txn, &pubkey, &owner)
}

/// Lets those accounts through that some rule of some client does.
#[derive(Debug)]
pub struct AccountFilterGate {
    rules: ClientRules<AccountFilterRule>,
}

impl View for AccountFilterGate {
    type V = Map<usize, Seq<AccountRule>>;

    /// The rules of every client that has any.
    closed spec fn view(&self) -> Map<usize, Seq<AccountRule>> {
        self.rules@
    }
}

impl Default for AccountFilterGate {
    fn default() -> (r: Self)
        ensures
            r@ == Map::<usize, Seq<AccountRule>>::empty(),
    {
        AccountFilterGate { rules: ClientRules::new() }
    }
}

impl AccountFilterGate {
    /// Gives a client its rules, in place of those that it had. Without rules it is no client.
    pub fn update_client_rules(&mut self, client_id: usize, rules: Vec<AccountFilterRule>)
        ensures
            final(self)@ == updated(old(self)@, client_id, views(rules@)),
    {
        self.rules.update_client_rules(client_id, rules);
    }

    pub fn remove_client(&mut self, client_id: usize)
        ensures
            final(self)@ == old(self)@.remove(client_id),
    {
        self.rules.remove_client(client_id);
    }

    /// The rules of all clients, to be looked at elsewhere.
    pub fn merged_rules(&self) -> (r: Arc<Vec<AccountFilterRule>>)
        ensures
            merges(views(r@), self@),
    {
        self.rules.merged_rules()
    }

    /// Tells whether an account is let through. What is no address is not.
    pub fn allows(&self, account: &ReplicaAccountInfo<'_>) -> (r: bool)
        ensures
            r == exists|pubkey: Pubkey, owner: Pubkey|
                {
                    &&& pubkey.bytes@ == account.pubkey@
                    &&& owner.bytes@ == account.owner@
                    &&& #[trigger] account_allowed(self@, account.has_txn, pubkey, owner)
                },
    {
        let rules = self.rules.as_slice();
        proof {
            assert forall|pubkey: Pubkey, owner: Pubkey|
                #![trigger account_allowed(self@, account.has_txn, pubkey, owner)]
                #![trigger some_rule_matches(views(rules@), account.has_txn, pubkey, owner)]
                some_rule_matches(views(rules@), account.has_txn, pubkey, owner)
                    == account_allowed(self@, account.has_txn, pubkey, owner) by {
                lemma_merged_rules_decide(
                    views(rules@),
                    self@,
                    account.has_txn,
                    pubkey,
                    owner,
                );
            }
        }
        any_rule_allows(rules, account)
    }

    pub fn allows_prepared(
        &self,
        has_txn_signature: bool,
        pubkey: &Pubkey,
        owner: &Pubkey,
    ) -> (r: bool)
        ensures
            r == account_allowed(self@, has_txn_signature, *pubkey, *owner),
    {
        let rules = self.rules.as_slice();
        proof {
            lemma_merged_rules_decide(views(rules@), self@, has_txn_signature, *pubkey, *owner);
        }
        any_rule_matches(rules, has_txn_signature, pubkey, owner)
    }
}

} // verus!
