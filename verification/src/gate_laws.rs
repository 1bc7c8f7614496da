//! What holds between filters and gates: a gate never keeps back what a filter would accept.

use crate::account_gate::{account_allowed, AccountRule};
use crate::accounts::{met_by, AccountDemand};
use crate::demand::{DeshredDemand, TransactionDemand};
use crate::deshred_filter::DeshredFilterView;
use crate::deshred_gate::{deshred_allowed, ReplicaDeshredTransactionInfo};
use crate::filter::FilterView;
use crate::gate::{some_client_has, updated};
use crate::listing::lemma_chosen_any;
use crate::message::{
    CommitmentLevel, Message, MessageAccount, MessageDeshredTransaction, MessageTransaction,
};
use crate::pubkey::Pubkey;
use crate::transaction_gate::{transaction_allowed, ReplicaTransactionInfo};
use vstd::prelude::*;

verus! {

/// A client that is given rules has those rules, or is gone where there are none; every other
/// client is as before.
pub proof fn lemma_update_touches_one_client<V>(
    clients: Map<usize, Seq<V>>,
    client_id: usize,
    rules: Seq<V>,
    other: usize,
)
    ensures
        updated(clients, client_id, rules).contains_key(client_id) <==> rules.len() > 0,
        rules.len() > 0 ==> updated(clients, client_id, rules)[client_id] == rules,
        other != client_id ==> {
            &&& updated(clients, client_id, rules).contains_key(other) == clients.contains_key(
                other,
            )
            &&& clients.contains_key(other) ==> updated(clients, client_id, rules)[other]
                == clients[other]
        },
{
}

/// Of two updates of one client the last counts.
pub proof fn lemma_last_update_counts<V>(
    clients: Map<usize, Seq<V>>,
    client_id: usize,
    first: Seq<V>,
    last: Seq<V>,
)
    ensures
        updated(updated(clients, client_id, first), client_id, last) == updated(
            clients,
            client_id,
            last,
        ),
{
    assert(updated(updated(clients, client_id, first), client_id, last) =~= updated(
        clients,
        client_id,
        last,
    ));
}

/// Removing a client takes back whatever rules it was given. Where it had none before, all is
/// as before.
pub proof fn lemma_removal_undoes_update<V>(
    clients: Map<usize, Seq<V>>,
    client_id: usize,
    rules: Seq<V>,
)
    ensures
        updated(clients, client_id, rules).remove(client_id) == clients.remove(client_id),
        !clients.contains_key(client_id) ==> updated(clients, client_id, rules).remove(client_id)
            == clients,
        updated(clients, client_id, Seq::empty()) == clients.remove(client_id),
{
    assert(updated(clients, client_id, rules).remove(client_id) =~= clients.remove(client_id));
    if !clients.contains_key(client_id) {
        assert(clients.remove(client_id) =~= clients);
    }
}

/// After an update, a client has a rule where the rules given have it, or where another client
/// had it before.
proof fn lemma_updated_rule<V>(
    clients: Map<usize, Seq<V>>,
    client_id: usize,
    rules: Seq<V>,
    rule: V,
)
    ensures
        some_client_has(updated(clients, client_id, rules), rule) <==> rules.contains(rule)
            || some_client_has(clients.remove(client_id), rule),
{
    let after = updated(clients, client_id, rules);
    let others = clients.remove(client_id);
    if some_client_has(after, rule) {
        let id = choose|id: usize| #[trigger] after.contains_key(id) && after[id].contains(rule);
        if id != client_id {
            assert(others.contains_key(id) && others[id].contains(rule));
        }
    }
    if rules.contains(rule) {
        assert(after.contains_key(client_id) && after[client_id].contains(rule));
    }
    if some_client_has(others, rule) {
        let id = choose|id: usize| #[trigger] others.contains_key(id) && others[id].contains(rule);
        assert(after.contains_key(id) && after[id].contains(rule));
    }
}

/// After an update, an account is let through where one of the rules given matches it or one of
/// the rules of the other clients does. The rules that the client had before no longer count.
pub proof fn lemma_updated_account_gate(
    clients: Map<usize, Seq<AccountRule>>,
    client_id: usize,
    rules: Seq<AccountRule>,
    has_txn_signature: bool,
    pubkey: Pubkey,
    owner: Pubkey,
)
    ensures
        account_allowed(
            updated(clients, client_id, rules),
            has_txn_signature,
            pubkey,
            owner,
        ) <==> {
            ||| crate::account_gate::some_rule_matches(rules, has_txn_signature, pubkey, owner)
            ||| account_allowed(clients.remove(client_id), has_txn_signature, pubkey, owner)
        },
{
    assert forall|rule: AccountRule|
        #![trigger some_client_has(updated(clients, client_id, rules), rule)]
        #![trigger rules.contains(rule)]
        #![trigger some_client_has(clients.remove(client_id), rule)]
        some_client_has(updated(clients, client_id, rules), rule) <==> rules.contains(rule)
            || some_client_has(clients.remove(client_id), rule) by {
        lemma_updated_rule(clients, client_id, rules, rule);
    }
}

/// After an update, a transaction is let through where one of the rules given matches it or one
/// of the rules of the other clients does. The rules that the client had before no longer count.
pub proof fn lemma_updated_transaction_gate(
    clients: Map<usize, Seq<TransactionDemand>>,
    client_id: usize,
    rules: Seq<TransactionDemand>,
    tx_info: ReplicaTransactionInfo<'_>,
)
    ensures
        transaction_allowed(updated(clients, client_id, rules), tx_info) <==> {
            ||| crate::transaction_gate::some_rule_matches(rules, tx_info)
            ||| transaction_allowed(clients.remove(client_id), tx_info)
        },
{
    assert forall|rule: TransactionDemand|
        #![trigger some_client_has(updated(clients, client_id, rules), rule)]
        #![trigger rules.contains(rule)]
        #![trigger some_client_has(clients.remove(client_id), rule)]
        some_client_has(updated(clients, client_id, rules), rule) <==> rules.contains(rule)
            || some_client_has(clients.remove(client_id), rule) by {
        lemma_updated_rule(clients, client_id, rules, rule);
    }
}

/// After an update, a received transaction is let through where one of the rules given matches it
/// or one of the rules of the other clients does. The rules that the client had before no longer
/// count.
pub proof fn lemma_updated_deshred_gate(
    clients: Map<usize, Seq<DeshredDemand>>,
    client_id: usize,
    rules: Seq<DeshredDemand>,
    is_vote: bool,
    keys: Set<Pubkey>,
)
    ensures
        deshred_allowed(updated(clients, client_id, rules), is_vote, keys) <==> {
            ||| crate::deshred_gate::some_rule_matches(rules, is_vote, keys)
            ||| deshred_allowed(clients.remove(client_id), is_vote, keys)
        },
{
    assert forall|rule: DeshredDemand|
        #![trigger some_client_has(updated(clients, client_id, rules), rule)]
        #![trigger rules.contains(rule)]
        #![trigger some_client_has(clients.remove(client_id), rule)]
        some_client_has(updated(clients, client_id, rules), rule) <==> rules.contains(rule)
            || some_client_has(clients.remove(client_id), rule) by {
        lemma_updated_rule(clients, client_id, rules, rule);
    }
}

/// Without clients, no gate lets anything through.
pub proof fn lemma_gate_without_rules_rejects(
    has_txn_signature: bool,
    pubkey: Pubkey,
    owner: Pubkey,
    tx_info: ReplicaTransactionInfo<'_>,
    is_vote: bool,
    keys: Set<Pubkey>,
)
    ensures
        !account_allowed(Map::<usize, Seq<AccountRule>>::empty(), has_txn_signature, pubkey, owner),
        !transaction_allowed(Map::<usize, Seq<TransactionDemand>>::empty(), tx_info),
        !deshred_allowed(Map::<usize, Seq<DeshredDemand>>::empty(), is_vote, keys),
{
}

/// The rules by client of a gate where each subscriber has installed what it asked for.
pub open spec fn installed<F, V>(
    subscribers: Map<usize, F>,
    rules: spec_fn(F) -> Seq<V>,
) -> Map<usize, Seq<V>> {
    Map::new(
        |id: usize| subscribers.contains_key(id) && rules(subscribers[id]).len() > 0,
        |id: usize| rules(subscribers[id]),
    )
}

/// A gate that starts without clients, and is updated whenever a subscriber comes or asks for
/// something else and cleared of it when it goes, has what the subscribers have installed.
pub proof fn lemma_installed<F, V>(
    subscribers: Map<usize, F>,
    rules: spec_fn(F) -> Seq<V>,
    id: usize,
    filter: F,
)
    ensures
        installed(Map::<usize, F>::empty(), rules) == Map::<usize, Seq<V>>::empty(),
        installed(subscribers.insert(id, filter), rules) == updated(
            installed(subscribers, rules),
            id,
            rules(filter),
        ),
        installed(subscribers.remove(id), rules) == installed(subscribers, rules).remove(id),
{
    assert(installed(Map::<usize, F>::empty(), rules) =~= Map::<usize, Seq<V>>::empty());
    assert(installed(subscribers.insert(id, filter), rules) =~= updated(
        installed(subscribers, rules),
        id,
        rules(filter),
    ));
    assert(installed(subscribers.remove(id), rules) =~= installed(subscribers, rules).remove(id));
}

/// A rule is installed where a subscriber's filter makes it.
proof fn lemma_installed_rule<F, V>(
    subscribers: Map<usize, F>,
    rules: spec_fn(F) -> Seq<V>,
    rule: V,
)
    ensures
        some_client_has(installed(subscribers, rules), rule) <==> exists|id: usize| #[trigger]
            subscribers.contains_key(id) && rules(subscribers[id]).contains(rule),
{
    if some_client_has(installed(subscribers, rules), rule) {
        let id = choose|id: usize| #[trigger]
            installed(subscribers, rules).contains_key(id) && installed(
                subscribers,
                rules,
            )[id].contains(rule);
        assert(subscribers.contains_key(id));
    }
    if exists|id: usize| #[trigger]
        subscribers.contains_key(id) && rules(subscribers[id]).contains(rule) {
        let id = choose|id: usize| #[trigger]
            subscribers.contains_key(id) && rules(subscribers[id]).contains(rule);
        assert(installed(subscribers, rules).contains_key(id));
    }
}

/// The rules for accounts that a subscriber installs.
pub open spec fn account_rules() -> spec_fn(FilterView) -> Seq<AccountRule> {
    |f: FilterView| f.account_rules()
}

/// The rules for transactions that a subscriber installs.
pub open spec fn transaction_rules() -> spec_fn(FilterView) -> Seq<TransactionDemand> {
    |f: FilterView| f.transaction_rules()
}

/// The rules for received transactions that a subscriber installs.
pub open spec fn deshred_rules() -> spec_fn(DeshredFilterView) -> Seq<DeshredDemand> {
    |f: DeshredFilterView| crate::deshred_gate::demands_of(f.deshred_transactions)
}

/// A subscriber gets an update for a message.
pub open spec fn some_update(
    subscribers: Map<usize, FilterView>,
    message: Message,
    commitment: Option<CommitmentLevel>,
) -> bool {
    exists|id: usize| #[trigger]
        subscribers.contains_key(id) && subscribers[id].updates(message, commitment).len() > 0
}

/// A subscriber of the deshred stream gets an update for a message.
pub open spec fn some_deshred_update(
    subscribers: Map<usize, DeshredFilterView>,
    message: Message,
) -> bool {
    exists|id: usize| #[trigger]
        subscribers.contains_key(id) && subscribers[id].updates(message).len() > 0
}

/// No filter of a subscriber looks at the content of accounts.
pub open spec fn ignores_content(filter: FilterView) -> bool {
    forall|i: int|
        0 <= i < filter.accounts.len() ==> (#[trigger] filter.accounts[i]).1.state.is_empty()
}

/// A filter's rule lets through what its demand accepts, and nothing else where the demand does
/// not look at the content.
proof fn lemma_rule_of_demand(demand: AccountDemand, message: MessageAccount)
    ensures
        ({
            let account = *message.account;
            let passes = demand.rule().matches(
                account.txn_signature is Some,
                account.pubkey,
                account.owner,
            );
            &&& demand.met(account) ==> passes
            &&& passes && demand.state.is_empty() ==> demand.met(account)
        }),
{
}

/// A gate for accounts keeps back no account for which a subscriber would get an update.
pub proof fn lemma_account_gate_is_conservative(
    subscribers: Map<usize, FilterView>,
    message: MessageAccount,
    commitment: Option<CommitmentLevel>,
)
    requires
        some_update(subscribers, Message::Account(message), commitment),
    ensures
        account_allowed(
            installed(subscribers, account_rules()),
            message.account.txn_signature is Some,
            message.account.pubkey,
            message.account.owner,
        ),
{
    let id = choose|id: usize| #[trigger]
        subscribers.contains_key(id) && subscribers[id].updates(
            Message::Account(message),
            commitment,
        ).len() > 0;
    let filter = subscribers[id];
    lemma_chosen_any(filter.accounts, met_by(message));
    let i = choose|i: int|
        0 <= i < filter.accounts.len() && met_by(message)((#[trigger] filter.accounts[i]).1);
    lemma_rule_of_demand(filter.accounts[i].1, message);
    let rule = filter.accounts[i].1.rule();
    assert(filter.account_rules()[i] == rule);
    assert(account_rules()(filter).contains(rule));
    lemma_installed_rule(subscribers, account_rules(), rule);
    assert(some_client_has(installed(subscribers, account_rules()), rule));
}

/// Where no filter looks at the content of accounts, a gate lets through only accounts for
/// which a subscriber gets an update.
pub proof fn lemma_account_gate_is_exact_without_content(
    subscribers: Map<usize, FilterView>,
    message: MessageAccount,
    commitment: Option<CommitmentLevel>,
)
    requires
        forall|id: usize| #[trigger]
            subscribers.contains_key(id) ==> ignores_content(subscribers[id]),
    ensures
        account_allowed(
            installed(subscribers, account_rules()),
            message.account.txn_signature is Some,
            message.account.pubkey,
            message.account.owner,
        ) <==> some_update(subscribers, Message::Account(message), commitment),
{
    let account = *message.account;
    let clients = installed(subscribers, account_rules());
    if some_update(subscribers, Message::Account(message), commitment) {
        lemma_account_gate_is_conservative(subscribers, message, commitment);
    }
    if account_allowed(clients, account.txn_signature is Some, account.pubkey, account.owner) {
        let rule = choose|rule: AccountRule| #[trigger]
            some_client_has(clients, rule) && rule.matches(
                account.txn_signature is Some,
                account.pubkey,
                account.owner,
            );
        lemma_installed_rule(subscribers, account_rules(), rule);
        let id = choose|id: usize| #[trigger]
            subscribers.contains_key(id) && account_rules()(subscribers[id]).contains(rule);
        let filter = subscribers[id];
        let i = choose|i: int|
            0 <= i < filter.account_rules().len() && filter.account_rules()[i] == rule;
        lemma_rule_of_demand(filter.accounts[i].1, message);
        assert(met_by(message)(filter.accounts[i].1));
        lemma_chosen_any(filter.accounts, met_by(message));
        assert(filter.updates(Message::Account(message), commitment).len() > 0);
    }
}

/// A message was made of a transaction that came in.
pub open spec fn made_of(message: MessageTransaction, tx_info: ReplicaTransactionInfo<'_>) -> bool {
    &&& message.transaction.is_vote == tx_info.is_vote
    &&& message.transaction.is_failed() == tx_info.is_failed
    &&& message.transaction.first_signature() == Some(tx_info.signature.bytes@)
    &&& message.transaction.account_keys@ == tx_info.keys()
}

/// A subscriber gets an update for a transaction where one of its rules lets it through.
proof fn lemma_transaction_update(
    filter: FilterView,
    message: MessageTransaction,
    tx_info: ReplicaTransactionInfo<'_>,
    commitment: Option<CommitmentLevel>,
)
    requires
        made_of(message, tx_info),
    ensures
        filter.updates(Message::Transaction(message), commitment).len() > 0 <==> exists|
            rule: TransactionDemand,
        | #[trigger] filter.transaction_rules().contains(rule) && tx_info.meets(rule),
{
    let accepts = crate::transactions::met_by(message);
    lemma_chosen_any(filter.transactions, accepts);
    lemma_chosen_any(filter.transactions_status, accepts);
    let rules = filter.transaction_rules();
    let n = filter.transactions.len();
    assert forall|i: int| 0 <= i < n implies rules[i] == (#[trigger] filter.transactions[i]).1 by {}
    assert forall|i: int| 0 <= i < filter.transactions_status.len() implies rules[n + i] == (
    #[trigger] filter.transactions_status[i]).1 by {}
    assert forall|d: TransactionDemand| #[trigger] accepts(d) == tx_info.meets(d) by {}
    if filter.updates(Message::Transaction(message), commitment).len() > 0 {
        if exists|i: int| 0 <= i < n && accepts((#[trigger] filter.transactions[i]).1) {
            let i = choose|i: int| 0 <= i < n && accepts((#[trigger] filter.transactions[i]).1);
            assert(rules.contains(rules[i]));
        } else {
            let i = choose|i: int|
                0 <= i < filter.transactions_status.len() && accepts(
                    (#[trigger] filter.transactions_status[i]).1,
                );
            assert(rules.contains(rules[n + i]));
        }
    }
    if exists|rule: TransactionDemand| #[trigger] rules.contains(rule) && tx_info.meets(rule) {
        let rule = choose|rule: TransactionDemand| #[trigger]
            rules.contains(rule) && tx_info.meets(rule);
        let i = choose|i: int| 0 <= i < rules.len() && rules[i] == rule;
        if i < n {
            assert(accepts(filter.transactions[i].1));
        } else {
            assert(accepts(filter.transactions_status[i - n].1));
        }
    }
}

/// A gate for transactions lets through exactly those for which a subscriber gets an update.
pub proof fn lemma_transaction_gate_is_exact(
    subscribers: Map<usize, FilterView>,
    message: MessageTransaction,
    tx_info: ReplicaTransactionInfo<'_>,
    commitment: Option<CommitmentLevel>,
)
    requires
        made_of(message, tx_info),
    ensures
        transaction_allowed(installed(subscribers, transaction_rules()), tx_info) <==> some_update(
            subscribers,
            Message::Transaction(message),
            commitment,
        ),
{
    let clients = installed(subscribers, transaction_rules());
    if transaction_allowed(clients, tx_info) {
        let rule = choose|rule: TransactionDemand| #[trigger]
            some_client_has(clients, rule) && tx_info.meets(rule);
        lemma_installed_rule(subscribers, transaction_rules(), rule);
        let id = choose|id: usize| #[trigger]
            subscribers.contains_key(id) && transaction_rules()(subscribers[id]).contains(rule);
        lemma_transaction_update(subscribers[id], message, tx_info, commitment);
        assert(subscribers[id].transaction_rules().contains(rule));
    }
    if some_update(subscribers, Message::Transaction(message), commitment) {
        let id = choose|id: usize| #[trigger]
            subscribers.contains_key(id) && subscribers[id].updates(
                Message::Transaction(message),
                commitment,
            ).len() > 0;
        lemma_transaction_update(subscribers[id], message, tx_info, commitment);
        let rule = choose|rule: TransactionDemand| #[trigger]
            subscribers[id].transaction_rules().contains(rule) && tx_info.meets(rule);
        assert(transaction_rules()(subscribers[id]).contains(rule));
        lemma_installed_rule(subscribers, transaction_rules(), rule);
    }
}

/// A gate for received transactions lets through exactly those for which a subscriber of the
/// deshred stream gets an update.
pub proof fn lemma_deshred_gate_is_exact(
    subscribers: Map<usize, DeshredFilterView>,
    message: MessageDeshredTransaction,
)
    ensures
        deshred_allowed(
            installed(subscribers, deshred_rules()),
            message.transaction.is_vote,
            message.transaction.keys(),
        ) <==> some_deshred_update(subscribers, Message::DeshredTransaction(message)),
{
    let clients = installed(subscribers, deshred_rules());
    let is_vote = message.transaction.is_vote;
    let keys = message.transaction.keys();
    let accepts = crate::deshred_transactions::met_by(message);
    if deshred_allowed(clients, is_vote, keys) {
        let rule = choose|rule: DeshredDemand| #[trigger]
            some_client_has(clients, rule) && rule.met(is_vote, keys);
        lemma_installed_rule(subscribers, deshred_rules(), rule);
        let id = choose|id: usize| #[trigger]
            subscribers.contains_key(id) && deshred_rules()(subscribers[id]).contains(rule);
        let filters = subscribers[id].deshred_transactions;
        let rules = deshred_rules()(subscribers[id]);
        let i = choose|i: int| 0 <= i < rules.len() && rules[i] == rule;
        assert(accepts(filters[i].1));
        lemma_chosen_any(filters, accepts);
        assert(subscribers[id].updates(Message::DeshredTransaction(message)).len() > 0);
    }
    if some_deshred_update(subscribers, Message::DeshredTransaction(message)) {
        let id = choose|id: usize| #[trigger]
            subscribers.contains_key(id) && subscribers[id].updates(
                Message::DeshredTransaction(message),
            ).len() > 0;
        let filters = subscribers[id].deshred_transactions;
        lemma_chosen_any(filters, accepts);
        let i = choose|i: int| 0 <= i < filters.len() && accepts((#[trigger] filters[i]).1);
        let rule = filters[i].1;
        let rules = deshred_rules()(subscribers[id]);
        assert(rules[i] == rule);
        assert(rules.contains(rule));
        lemma_installed_rule(subscribers, deshred_rules(), rule);
        assert(some_client_has(clients, rule));
    }
}

/// A gate decides the same of a received transaction as of the message that is made of it.
pub proof fn lemma_deshred_gate_decides_alike(
    clients: Map<usize, Seq<DeshredDemand>>,
    tx_info: ReplicaDeshredTransactionInfo<'_>,
    message: MessageDeshredTransaction,
)
    requires
        message.transaction.is_vote == tx_info.is_vote,
        message.transaction.static_account_keys@ == tx_info.static_account_keys@,
        message.transaction.loaded_writable_addresses@ == match tx_info.loaded_addresses {
            Some(loaded) => loaded.writable@,
            None => Seq::empty(),
        },
        message.transaction.loaded_readonly_addresses@ == match tx_info.loaded_addresses {
            Some(loaded) => loaded.readonly@,
            None => Seq::empty(),
        },
    ensures
        deshred_allowed(clients, tx_info.is_vote, tx_info.keys()) == deshred_allowed(
            clients,
            message.transaction.is_vote,
            message.transaction.keys(),
        ),
{
    assert(message.transaction.keys() =~= tx_info.keys());
}

} // verus!
