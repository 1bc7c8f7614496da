//! How gates decide, read off the rules of their clients, and which rules a request makes.

use crate::account_gate::{account_allowed, AccountRule};
use crate::account_keys::TxAccountKeysView;
use crate::bindings::{pubkey_from_text, signature_from_text};
use crate::demand::{DeshredDemand, TransactionDemand};
use crate::deshred_filter::DeshredFilterView;
use crate::deshred_gate::{
    deshred_allowed, DeshredTransactionFilterRule, ReplicaDeshredTransactionInfo,
};
use crate::error::{agrees, lemma_collected, FilterResult};
use crate::filter::FilterView;
use crate::filter_laws::{lemma_accepted_counts, lemma_accepted_deshred_names};
use crate::gate::some_client_has;
use crate::limits::FilterLimits;
use crate::message::MessageDeshredTransactionInfo;
use crate::name::FilterNames;
use crate::pubkey::{ParsePubkeyError, Pubkey};
use crate::request::{SubscribeDeshredRequest, SubscribeRequest};
use crate::transaction_gate::{
    transaction_allowed, ReplicaTransactionInfo, TransactionFilterRule,
};
use crate::update_laws::lemma_texts_name;
use vstd::prelude::*;

verus! {

/// A gate lets an account through exactly where some client has a rule that takes writes with a
/// transaction or without, as this one came, and that names the address and the owner, as far as
/// it must name them.
pub proof fn lemma_account_gate_decides(
    clients: Map<usize, Seq<AccountRule>>,
    has_txn_signature: bool,
    pubkey: Pubkey,
    owner: Pubkey,
)
    ensures
        account_allowed(clients, has_txn_signature, pubkey, owner) <==> exists|id: usize, k: int|
            #![trigger clients[id][k]]
            {
                let rule = clients[id][k];
                &&& clients.contains_key(id)
                &&& 0 <= k < clients[id].len()
                &&& rule.nonempty_txn_signature is Some ==> rule.nonempty_txn_signature->0
                    == has_txn_signature
                &&& rule.account_required ==> rule.account.contains(pubkey)
                &&& rule.owner_required ==> rule.owner.contains(owner)
            },
{
    assert forall|rule: AccountRule|
        #[trigger] rule.matches(has_txn_signature, pubkey, owner) <==> {
        &&& rule.nonempty_txn_signature is Some ==> rule.nonempty_txn_signature->0
            == has_txn_signature
        &&& rule.account_required ==> rule.account.contains(pubkey)
        &&& rule.owner_required ==> rule.owner.contains(owner)
    } by {
    }
    if account_allowed(clients, has_txn_signature, pubkey, owner) {
        let rule = choose|rule: AccountRule| #[trigger] some_client_has(clients, rule)
            && rule.matches(has_txn_signature, pubkey, owner);
        let id = choose|id: usize| #[trigger]
            clients.contains_key(id) && clients[id].contains(rule);
        let k = choose|k: int| 0 <= k < clients[id].len() && clients[id][k] == rule;
        assert(clients[id][k] == rule);
    }
    assert forall|id: usize, k: int|
        #![trigger clients[id][k]]
        clients.contains_key(id) && 0 <= k < clients[id].len() && clients[id][k].matches(
            has_txn_signature,
            pubkey,
            owner,
        ) implies account_allowed(clients, has_txn_signature, pubkey, owner) by {
        assert(clients[id].contains(clients[id][k]));
        assert(some_client_has(clients, clients[id][k]));
    }
}

/// A gate lets a transaction through exactly where some client has a rule that it meets: in being
/// a vote and in having failed, in its signature, with one at least of the accounts to include in
/// one of the three lists of its accounts, if there are any to include, with no account to
/// exclude in any of them, and with every required account in one of them.
pub proof fn lemma_transaction_gate_decides(
    clients: Map<usize, Seq<TransactionDemand>>,
    tx_info: ReplicaTransactionInfo<'_>,
)
    ensures
        transaction_allowed(clients, tx_info) <==> exists|id: usize, k: int|
            #![trigger clients[id][k]]
            {
                let rule = clients[id][k];
                &&& clients.contains_key(id)
                &&& 0 <= k < clients[id].len()
                &&& rule.vote is Some ==> rule.vote->0 == tx_info.is_vote
                &&& rule.failed is Some ==> rule.failed->0 == tx_info.is_failed
                &&& rule.signature is Some ==> rule.signature->0.bytes@ == tx_info.signature.bytes@
                &&& (exists|key: Pubkey| #[trigger] rule.accounts.included.contains(key))
                    ==> exists|key: Pubkey|
                    {
                        &&& #[trigger] rule.accounts.included.contains(key)
                        &&& {
                            ||| tx_info.static_account_keys@.contains(key)
                            ||| tx_info.loaded_writable@.contains(key)
                            ||| tx_info.loaded_readonly@.contains(key)
                        }
                    }
                &&& forall|key: Pubkey| #[trigger]
                    rule.accounts.excluded.contains(key) ==> !({
                        ||| tx_info.static_account_keys@.contains(key)
                        ||| tx_info.loaded_writable@.contains(key)
                        ||| tx_info.loaded_readonly@.contains(key)
                    })
                &&& forall|key: Pubkey| #[trigger]
                    rule.accounts.required.contains(key) ==> {
                        ||| tx_info.static_account_keys@.contains(key)
                        ||| tx_info.loaded_writable@.contains(key)
                        ||| tx_info.loaded_readonly@.contains(key)
                    }
            },
{
    assert forall|rule: TransactionDemand| #[trigger] tx_info.meets(rule) <==> {
        &&& rule.vote is Some ==> rule.vote->0 == tx_info.is_vote
        &&& rule.failed is Some ==> rule.failed->0 == tx_info.is_failed
        &&& rule.signature is Some ==> rule.signature->0.bytes@ == tx_info.signature.bytes@
        &&& (exists|key: Pubkey| #[trigger] rule.accounts.included.contains(key))
            ==> exists|key: Pubkey|
            {
                &&& #[trigger] rule.accounts.included.contains(key)
                &&& {
                    ||| tx_info.static_account_keys@.contains(key)
                    ||| tx_info.loaded_writable@.contains(key)
                    ||| tx_info.loaded_readonly@.contains(key)
                }
            }
        &&& forall|key: Pubkey| #[trigger]
            rule.accounts.excluded.contains(key) ==> !({
                ||| tx_info.static_account_keys@.contains(key)
                ||| tx_info.loaded_writable@.contains(key)
                ||| tx_info.loaded_readonly@.contains(key)
            })
        &&& forall|key: Pubkey| #[trigger]
            rule.accounts.required.contains(key) ==> {
                ||| tx_info.static_account_keys@.contains(key)
                ||| tx_info.loaded_writable@.contains(key)
                ||| tx_info.loaded_readonly@.contains(key)
            }
    } by {
        let included = rule.accounts.included;
        let keys = tx_info.keys();
        if included != Set::<Pubkey>::empty() && forall|key: Pubkey|
            !(#[trigger] included.contains(key)) {
            assert(included =~= Set::<Pubkey>::empty());
        }
        if !included.disjoint(keys) {
            let key = choose|key: Pubkey| included.contains(key) && keys.contains(key);
            assert(included.contains(key));
        }
    }
    if transaction_allowed(clients, tx_info) {
        let rule = choose|rule: TransactionDemand| #[trigger] some_client_has(clients, rule)
            && tx_info.meets(rule);
        let id = choose|id: usize| #[trigger]
            clients.contains_key(id) && clients[id].contains(rule);
        let k = choose|k: int| 0 <= k < clients[id].len() && clients[id][k] == rule;
        assert(clients[id][k] == rule);
    }
    assert forall|id: usize, k: int|
        #![trigger clients[id][k]]
        clients.contains_key(id) && 0 <= k < clients[id].len() && tx_info.meets(clients[id][k])
            implies transaction_allowed(clients, tx_info) by {
        assert(clients[id].contains(clients[id][k]));
        assert(some_client_has(clients, clients[id][k]));
    }
}

/// A gate lets a received transaction through exactly where some client has a rule that it meets:
/// in being a vote, with one at least of the accounts to include, if there are any to include,
/// with no account to exclude, and with every required account.
pub proof fn lemma_deshred_gate_decides(
    clients: Map<usize, Seq<DeshredDemand>>,
    is_vote: bool,
    keys: Set<Pubkey>,
)
    ensures
        deshred_allowed(clients, is_vote, keys) <==> exists|id: usize, k: int|
            #![trigger clients[id][k]]
            {
                let rule = clients[id][k];
                &&& clients.contains_key(id)
                &&& 0 <= k < clients[id].len()
                &&& rule.vote is Some ==> rule.vote->0 == is_vote
                &&& (exists|key: Pubkey| #[trigger] rule.accounts.included.contains(key))
                    ==> exists|key: Pubkey|
                    {
                        &&& #[trigger] rule.accounts.included.contains(key)
                        &&& keys.contains(key)
                    }
                &&& forall|key: Pubkey| #[trigger]
                    rule.accounts.excluded.contains(key) ==> !keys.contains(key)
                &&& forall|key: Pubkey| #[trigger]
                    rule.accounts.required.contains(key) ==> keys.contains(key)
            },
{
    assert forall|rule: DeshredDemand| #[trigger] rule.met(is_vote, keys) <==> {
        &&& rule.vote is Some ==> rule.vote->0 == is_vote
        &&& (exists|key: Pubkey| #[trigger] rule.accounts.included.contains(key))
            ==> exists|key: Pubkey|
            {
                &&& #[trigger] rule.accounts.included.contains(key)
                &&& keys.contains(key)
            }
        &&& forall|key: Pubkey| #[trigger]
            rule.accounts.excluded.contains(key) ==> !keys.contains(key)
        &&& forall|key: Pubkey| #[trigger]
            rule.accounts.required.contains(key) ==> keys.contains(key)
    } by {
        let included = rule.accounts.included;
        let keys = keys;
        if included != Set::<Pubkey>::empty() && forall|key: Pubkey|
            !(#[trigger] included.contains(key)) {
            assert(included =~= Set::<Pubkey>::empty());
        }
        if !included.disjoint(keys) {
            let key = choose|key: Pubkey| included.contains(key) && keys.contains(key);
            assert(included.contains(key));
        }
    }
    if deshred_allowed(clients, is_vote, keys) {
        let rule = choose|rule: DeshredDemand| #[trigger] some_client_has(clients, rule)
            && rule.met(is_vote, keys);
        let id = choose|id: usize| #[trigger]
            clients.contains_key(id) && clients[id].contains(rule);
        let k = choose|k: int| 0 <= k < clients[id].len() && clients[id][k] == rule;
        assert(clients[id][k] == rule);
    }
    assert forall|id: usize, k: int|
        #![trigger clients[id][k]]
        clients.contains_key(id) && 0 <= k < clients[id].len() && clients[id][k].met(is_vote, keys)
            implies deshred_allowed(clients, is_vote, keys) by {
        assert(clients[id].contains(clients[id][k]));
        assert(some_client_has(clients, clients[id][k]));
    }
}

/// A received transaction has the accounts of its three lists, where those that it loads are
/// known, and else those that it names itself.
pub proof fn lemma_accounts_of_received_transactions(
    tx_info: ReplicaDeshredTransactionInfo<'_>,
    message: MessageDeshredTransactionInfo,
    key: Pubkey,
)
    ensures
        tx_info.keys().contains(key) <==> {
            ||| tx_info.static_account_keys@.contains(key)
            ||| tx_info.loaded_addresses is Some && tx_info.loaded_addresses->0.writable@.contains(
                key,
            )
            ||| tx_info.loaded_addresses is Some && tx_info.loaded_addresses->0.readonly@.contains(
                key,
            )
        },
        message.keys().contains(key) <==> {
            ||| message.static_account_keys@.contains(key)
            ||| message.loaded_writable_addresses@.contains(key)
            ||| message.loaded_readonly_addresses@.contains(key)
        },
{
}

/// Each filter on accounts of an accepted request makes one rule, in its place, that asks of the
/// write what the filter does, names the addresses and owners that the filter does, and must name
/// them where the filter names any.
pub proof fn lemma_account_rules_of_a_request(
    config: SubscribeRequest,
    limits: FilterLimits,
    names: FilterNames,
    i: int,
    key: Pubkey,
)
    requires
        FilterView::requested(config, limits, names) is Ok,
        0 <= i < config.accounts@.len(),
    ensures
        ({
            let rules = FilterView::requested(config, limits, names)->Ok_0.account_rules();
            let asked = config.accounts@[i].1;
            &&& rules.len() == config.accounts@.len()
            &&& rules[i].nonempty_txn_signature == asked.nonempty_txn_signature
            &&& rules[i].account_required <==> asked.account@.len() > 0
            &&& rules[i].owner_required <==> asked.owner@.len() > 0
            &&& rules[i].account.contains(key) <==> exists|k: int|
                #![trigger asked.account@[k]]
                0 <= k < asked.account@.len() && pubkey_from_text(asked.account@[k]@) == Ok::<
                    [u8; 32],
                    ParsePubkeyError,
                >(key.bytes)
            &&& rules[i].owner.contains(key) <==> exists|k: int|
                #![trigger asked.owner@[k]]
                0 <= k < asked.owner@.len() && pubkey_from_text(asked.owner@[k]@) == Ok::<
                    [u8; 32],
                    ParsePubkeyError,
                >(key.bytes)
        }),
{
    let asked = config.accounts@[i].1;
    lemma_accepted_counts(config, limits, names);
    lemma_collected(crate::accounts::each_requested(config.accounts@, limits.accounts, names));
    let results = crate::accounts::each_requested(config.accounts@, limits.accounts, names);
    assert(results[i] is Ok);
    lemma_texts_name(asked.account@, limits.accounts.account_reject@, key);
    lemma_texts_name(asked.owner@, limits.accounts.owner_reject@, key);
}

/// Each filter on transactions of an accepted request makes one rule, in its place, that asks what
/// the filter does.
pub proof fn lemma_transaction_rules_of_a_request(
    config: SubscribeRequest,
    limits: FilterLimits,
    names: FilterNames,
    i: int,
    key: Pubkey,
)
    requires
        FilterView::requested(config, limits, names) is Ok,
        0 <= i < config.transactions@.len(),
    ensures
        ({
            let rules = FilterView::requested(config, limits, names)->Ok_0.transaction_rules();
            let rule = rules[i];
            let asked = config.transactions@[i].1;
            &&& rules.len() == config.transactions@.len() + config.transactions_status@.len()
            &&& rule.vote == asked.vote
            &&& rule.failed == asked.failed
            &&& asked.signature is None ==> rule.signature is None
            &&& asked.signature is Some ==> rule.signature is Some && rule.signature->0.bytes
                == signature_from_text(asked.signature->0@)->Ok_0
            &&& rule.accounts.included.contains(key) <==> exists|k: int|
                #![trigger asked.account_include@[k]]
                0 <= k < asked.account_include@.len()
                    && pubkey_from_text(asked.account_include@[k]@) == Ok::<
                    [u8; 32],
                    ParsePubkeyError,
                >(key.bytes)
            &&& rule.accounts.excluded.contains(key) <==> exists|k: int|
                #![trigger asked.account_exclude@[k]]
                0 <= k < asked.account_exclude@.len()
                    && pubkey_from_text(asked.account_exclude@[k]@) == Ok::<
                    [u8; 32],
                    ParsePubkeyError,
                >(key.bytes)
            &&& rule.accounts.required.contains(key) <==> exists|k: int|
                #![trigger asked.account_required@[k]]
                0 <= k < asked.account_required@.len()
                    && pubkey_from_text(asked.account_required@[k]@) == Ok::<
                    [u8; 32],
                    ParsePubkeyError,
                >(key.bytes)
        }),
{
    let asked = config.transactions@[i].1;
    let results = crate::transactions::each_requested(
        config.transactions@,
        limits.transactions,
        names,
    );
    lemma_accepted_counts(config, limits, names);
    lemma_collected(results);
    assert(results[i] is Ok);
    lemma_texts_name(asked.account_include@, limits.transactions.account_include_reject@, key);
    lemma_texts_name(asked.account_exclude@, Set::empty(), key);
    lemma_texts_name(asked.account_required@, Set::empty(), key);
}

/// Each filter on transaction statuses of an accepted request makes one rule, in its place behind
/// those for transactions, that asks what the filter does.
pub proof fn lemma_status_rules_of_a_request(
    config: SubscribeRequest,
    limits: FilterLimits,
    names: FilterNames,
    i: int,
    key: Pubkey,
)
    requires
        FilterView::requested(config, limits, names) is Ok,
        0 <= i < config.transactions_status@.len(),
    ensures
        ({
            let rules = FilterView::requested(config, limits, names)->Ok_0.transaction_rules();
            let rule = rules[config.transactions@.len() + i];
            let asked = config.transactions_status@[i].1;
            &&& rules.len() == config.transactions@.len() + config.transactions_status@.len()
            &&& rule.vote == asked.vote
            &&& rule.failed == asked.failed
            &&& asked.signature is None ==> rule.signature is None
            &&& asked.signature is Some ==> rule.signature is Some && rule.signature->0.bytes
                == signature_from_text(asked.signature->0@)->Ok_0
            &&& rule.accounts.included.contains(key) <==> exists|k: int|
                #![trigger asked.account_include@[k]]
                0 <= k < asked.account_include@.len()
                    && pubkey_from_text(asked.account_include@[k]@) == Ok::<
                    [u8; 32],
                    ParsePubkeyError,
                >(key.bytes)
            &&& rule.accounts.excluded.contains(key) <==> exists|k: int|
                #![trigger asked.account_exclude@[k]]
                0 <= k < asked.account_exclude@.len()
                    && pubkey_from_text(asked.account_exclude@[k]@) == Ok::<
                    [u8; 32],
                    ParsePubkeyError,
                >(key.bytes)
            &&& rule.accounts.required.contains(key) <==> exists|k: int|
                #![trigger asked.account_required@[k]]
                0 <= k < asked.account_required@.len()
                    && pubkey_from_text(asked.account_required@[k]@) == Ok::<
                    [u8; 32],
                    ParsePubkeyError,
                >(key.bytes)
        }),
{
    let asked = config.transactions_status@[i].1;
    let results = crate::transactions::each_requested(
        config.transactions_status@,
        limits.transactions_status,
        names,
    );
    lemma_accepted_counts(config, limits, names);
    lemma_collected(results);
    assert(results[i] is Ok);
    lemma_texts_name(
        asked.account_include@,
        limits.transactions_status.account_include_reject@,
        key,
    );
    lemma_texts_name(asked.account_exclude@, Set::empty(), key);
    lemma_texts_name(asked.account_required@, Set::empty(), key);
}

/// Each filter of an accepted request for the deshred stream makes one rule, in its place, that
/// asks what the filter does.
pub proof fn lemma_deshred_rules_of_a_request(
    config: SubscribeDeshredRequest,
    limits: FilterLimits,
    names: FilterNames,
    i: int,
    key: Pubkey,
)
    requires
        DeshredFilterView::requested(config, limits, names) is Ok,
        0 <= i < config.deshred_transactions@.len(),
    ensures
        ({
            let rules = crate::deshred_gate::demands_of(
                DeshredFilterView::requested(config, limits, names)->Ok_0.deshred_transactions,
            );
            let asked = config.deshred_transactions@[i].1;
            &&& rules.len() == config.deshred_transactions@.len()
            &&& rules[i].vote == asked.vote
            &&& rules[i].accounts.included.contains(key) <==> exists|k: int|
                #![trigger asked.account_include@[k]]
                0 <= k < asked.account_include@.len()
                    && pubkey_from_text(asked.account_include@[k]@) == Ok::<
                    [u8; 32],
                    ParsePubkeyError,
                >(key.bytes)
            &&& rules[i].accounts.excluded.contains(key) <==> exists|k: int|
                #![trigger asked.account_exclude@[k]]
                0 <= k < asked.account_exclude@.len()
                    && pubkey_from_text(asked.account_exclude@[k]@) == Ok::<
                    [u8; 32],
                    ParsePubkeyError,
                >(key.bytes)
            &&& rules[i].accounts.required.contains(key) <==> exists|k: int|
                #![trigger asked.account_required@[k]]
                0 <= k < asked.account_required@.len()
                    && pubkey_from_text(asked.account_required@[k]@) == Ok::<
                    [u8; 32],
                    ParsePubkeyError,
                >(key.bytes)
        }),
{
    let asked = config.deshred_transactions@[i].1;
    let results = crate::deshred_transactions::each_requested(
        config.deshred_transactions@,
        limits.deshred_transactions,
        names,
    );
    lemma_accepted_deshred_names(config, limits, names);
    lemma_collected(results);
    assert(results[i] is Ok);
    lemma_texts_name(
        asked.account_include@,
        limits.deshred_transactions.account_include_reject@,
        key,
    );
    lemma_texts_name(asked.account_exclude@, Set::empty(), key);
    lemma_texts_name(asked.account_required@, Set::empty(), key);
}

/// A set that is made of a list lies to another as the items of the list do.
proof fn lemma_list_meets(list: Seq<Pubkey>, keys: Set<Pubkey>)
    ensures
        list.to_set() == Set::<Pubkey>::empty() <==> list.len() == 0,
        !list.to_set().disjoint(keys) <==> exists|k: int|
            0 <= k < list.len() && keys.contains(#[trigger] list[k]),
        list.to_set().subset_of(keys) <==> forall|k: int|
            0 <= k < list.len() ==> keys.contains(#[trigger] list[k]),
{
    let set = list.to_set();
    if list.len() > 0 {
        assert(set.contains(list[0]));
    } else {
        assert(set =~= Set::<Pubkey>::empty());
    }
    assert forall|k: int| 0 <= k < list.len() implies set.contains(#[trigger] list[k]) by {}
    if !set.disjoint(keys) {
        let key = choose|key: Pubkey| set.contains(key) && keys.contains(key);
        assert(list.contains(key));
    }
    if forall|k: int| 0 <= k < list.len() ==> keys.contains(#[trigger] list[k]) {
        assert forall|key: Pubkey| set.contains(key) implies keys.contains(key) by {
            assert(list.contains(key));
            let k = choose|k: int| 0 <= k < list.len() && list[k] == key;
            assert(keys.contains(list[k]));
        }
    }
}

/// Rules for transactions are matched by their lists: a transaction meets one where one at least of
/// the accounts listed to include is among its accounts, if any is listed, none of those to
/// exclude is, and all of the required ones are, and it is a vote, has failed and is signed as
/// the rule says.
pub proof fn lemma_rules_are_matched_by_their_lists(
    rule: TransactionFilterRule,
    tx_info: ReplicaTransactionInfo<'_>,
    received: DeshredTransactionFilterRule,
    is_vote: bool,
    keys: Set<Pubkey>,
)
    ensures
        tx_info.meets(rule@) <==> {
            &&& rule.vote is Some ==> rule.vote->0 == tx_info.is_vote
            &&& rule.failed is Some ==> rule.failed->0 == tx_info.is_failed
            &&& rule.signature is Some ==> rule.signature->0.bytes@ == tx_info.signature.bytes@
            &&& rule.account_include@.len() > 0 ==> exists|k: int|
                0 <= k < rule.account_include@.len() && tx_info.keys().contains(
                    #[trigger] rule.account_include@[k],
                )
            &&& forall|k: int|
                0 <= k < rule.account_exclude@.len() ==> !tx_info.keys().contains(
                    #[trigger] rule.account_exclude@[k],
                )
            &&& forall|k: int|
                0 <= k < rule.account_required@.len() ==> tx_info.keys().contains(
                    #[trigger] rule.account_required@[k],
                )
        },
        received@.met(is_vote, keys) <==> {
            &&& received.vote is Some ==> received.vote->0 == is_vote
            &&& received.account_include@.len() > 0 ==> exists|k: int|
                0 <= k < received.account_include@.len() && keys.contains(
                    #[trigger] received.account_include@[k],
                )
            &&& forall|k: int|
                0 <= k < received.account_exclude@.len() ==> !keys.contains(
                    #[trigger] received.account_exclude@[k],
                )
            &&& forall|k: int|
                0 <= k < received.account_required@.len() ==> keys.contains(
                    #[trigger] received.account_required@[k],
                )
        },
{
    lemma_list_meets(rule.account_include@, tx_info.keys());
    lemma_list_meets(rule.account_exclude@, tx_info.keys());
    lemma_list_meets(rule.account_required@, tx_info.keys());
    lemma_list_meets(received.account_include@, keys);
    lemma_list_meets(received.account_exclude@, keys);
    lemma_list_meets(received.account_required@, keys);
}

/// A rule that asks for nothing lets everything through.
pub proof fn lemma_empty_rules_let_everything_through(
    has_txn_signature: bool,
    pubkey: Pubkey,
    owner: Pubkey,
    tx_info: ReplicaTransactionInfo<'_>,
    is_vote: bool,
    keys: Set<Pubkey>,
)
    ensures
        AccountRule::any().matches(has_txn_signature, pubkey, owner),
        tx_info.meets(TransactionDemand::none()),
        DeshredDemand::none().met(is_vote, keys),
{
}

/// A result is as specified where it is a value with the view that is specified, or the error that
/// is.
pub proof fn lemma_results_agree<T: View>(r: FilterResult<T>, wanted: FilterResult<T::V>)
    ensures
        agrees(r, wanted) <==> {
            &&& r is Ok <==> wanted is Ok
            &&& r is Ok ==> r->Ok_0@ == wanted->Ok_0
            &&& r is Err ==> r->Err_0 == wanted->Err_0
        },
{
}

/// A transaction has the accounts of its three lists.
pub proof fn lemma_accounts_of_transactions(
    tx_info: ReplicaTransactionInfo<'_>,
    view: TxAccountKeysView<'_>,
    key: Pubkey,
)
    ensures
        tx_info.keys().contains(key) <==> {
            ||| tx_info.static_account_keys@.contains(key)
            ||| tx_info.loaded_writable@.contains(key)
            ||| tx_info.loaded_readonly@.contains(key)
        },
        view.keys().contains(key) <==> {
            ||| view.static_keys@.contains(key)
            ||| view.loaded_writable@.contains(key)
            ||| view.loaded_readonly@.contains(key)
        },
{
}

/// A rule that lists each account once has no account twice in any of its lists.
pub proof fn lemma_rules_list_each_account_once(
    rule: TransactionFilterRule,
    received: DeshredTransactionFilterRule,
)
    ensures
        rule.lists_each_once() <==> rule.account_include@.no_duplicates()
            && rule.account_exclude@.no_duplicates() && rule.account_required@.no_duplicates(),
        received.lists_each_once() <==> received.account_include@.no_duplicates()
            && received.account_exclude@.no_duplicates()
            && received.account_required@.no_duplicates(),
{
}

} // verus!
