//! Which updates an accepted request gives, read off the request and the message alone.

use crate::accounts_state::{
    condition_holds, extended, found_at, gathered, in_memory, lemma_every_condition_holds,
    requested_data, requested_state,
};
use crate::bindings::{
    base58_bytes, base64_bytes, pubkey_from_text, signature_from_text, valid_token_account,
};
use crate::blocks::lemma_block_parts;
use crate::decode::{decoded_pubkey_set, decoded_pubkeys, lemma_decoded_pubkeys};
use crate::deshred_filter::DeshredFilterView;
use crate::error::{collected, lemma_collected, FilterError, FilterResult};
use crate::filter::FilterView;
use crate::filter_laws::{
    lemma_accepted_counts, lemma_accepted_deshred_names, lemma_accepted_names, lemma_decoded_set,
    names_asked, names_in,
};
use crate::limits::{
    FilterLimits, FilterLimitsAccounts, FilterLimitsDeshredTransactions, FilterLimitsTransactions,
};
use crate::listing::{chosen, lemma_chosen};
use crate::message::{
    CommitmentLevel, Message, MessageAccount, MessageAccountInfo, MessageBlock, MessageBlockMeta,
    MessageDeshredTransaction, MessageEntry, MessageSlot, MessageTransaction,
    MessageTransactionInfo,
};
use crate::name::FilterNames;
use crate::named::unique_names;
use crate::pubkey::{ParsePubkeyError, Pubkey};
use crate::request::{
    AccountsFilterDataOneof, AccountsFilterLamports, AccountsFilterMemcmpOneof,
    SubscribeDeshredRequest, SubscribeRequest, SubscribeRequestFilterAccounts,
    SubscribeRequestFilterAccountsFilter, SubscribeRequestFilterDeshredTransactions,
    SubscribeRequestFilterTransactions,
};
use crate::transactions::{transaction_updates, FilterTransactionsType};
use crate::update::{
    deshred_updates_of, updates_of, FilteredUpdate, FilteredUpdateDeshred,
    FilteredUpdateDeshredOneof, FilteredUpdateOneof, UpdateBody,
};
use std::sync::Arc;
use vstd::prelude::*;

verus! {

/// Where the filters of a list have the names that were asked for, and these are distinct, a name
/// is chosen where the filter at its place accepts.
proof fn lemma_chosen_at<T, M>(
    configs: Seq<(String, T)>,
    filters: Seq<(Seq<char>, M)>,
    accepts: spec_fn(M) -> bool,
    i: int,
)
    requires
        unique_names(configs),
        names_in(filters) == names_asked(configs),
        0 <= i < configs.len(),
    ensures
        filters.len() == configs.len(),
        chosen(filters, accepts).contains(configs[i].0@) <==> accepts(filters[i].1),
{
    let name = configs[i].0@;
    assert(names_in(filters).len() == filters.len());
    assert(names_asked(configs).len() == configs.len());
    assert(names_in(filters)[i] == names_asked(configs)[i]);
    lemma_chosen(filters, accepts);
    if chosen(filters, accepts).contains(name) {
        let j = choose|j: int|
            {
                &&& 0 <= j < filters.len()
                &&& (#[trigger] filters[j]).0 == name
                &&& accepts(filters[j].1)
            };
        assert(names_in(filters)[j] == names_asked(configs)[j]);
        if i < j {
            assert(configs[i].0@ != configs[j].0@);
        } else if j < i {
            assert(configs[j].0@ != configs[i].0@);
        }
    }
    if accepts(filters[i].1) {
        assert(filters[i].0 == name);
    }
}

/// Every value that was collected is what became of the request at its place.
proof fn lemma_collected_at<A>(results: Seq<FilterResult<A>>, i: int)
    requires
        collected(results) is Ok,
        0 <= i < results.len(),
    ensures
        results[i] == Ok::<A, FilterError>(collected(results)->Ok_0[i]),
{
    lemma_collected(results);
}

/// How a set that was read from texts lies to another set, text by text.
proof fn lemma_texts_meet(texts: Seq<String>, reject: Set<Pubkey>, keys: Set<Pubkey>)
    requires
        decoded_pubkey_set(texts, reject) is Ok,
    ensures
        ({
            let set = decoded_pubkey_set(texts, reject)->Ok_0;
            &&& set == Set::<Pubkey>::empty() <==> texts.len() == 0
            &&& !set.disjoint(keys) <==> exists|k: int|
                #![trigger texts[k]]
                0 <= k < texts.len() && keys.contains(
                    Pubkey { bytes: pubkey_from_text(texts[k]@)->Ok_0 },
                )
            &&& set.subset_of(keys) <==> forall|k: int|
                #![trigger texts[k]]
                0 <= k < texts.len() ==> keys.contains(
                    Pubkey { bytes: pubkey_from_text(texts[k]@)->Ok_0 },
                )
        }),
{
    lemma_decoded_set(texts, reject);
    lemma_decoded_pubkeys(texts, reject);
    let list = decoded_pubkeys(texts, reject)->Ok_0;
    let set = decoded_pubkey_set(texts, reject)->Ok_0;
    assert(set == list.to_set());
    assert forall|k: int| 0 <= k < texts.len() implies list[k] == (Pubkey {
        bytes: pubkey_from_text((#[trigger] texts[k])@)->Ok_0,
    }) && set.contains(list[k]) by {
        assert(Pubkey::parsed(texts[k]@) == Ok::<Pubkey, ParsePubkeyError>(list[k]));
        assert(list.contains(list[k]));
    }
    if !set.disjoint(keys) {
        let key = choose|key: Pubkey| set.contains(key) && keys.contains(key);
        assert(list.contains(key));
        let k = choose|k: int| 0 <= k < list.len() && list[k] == key;
        assert(Pubkey::parsed(texts[k]@) == Ok::<Pubkey, ParsePubkeyError>(list[k]));
    }
    if exists|k: int|
        #![trigger texts[k]]
        0 <= k < texts.len() && keys.contains(
            Pubkey { bytes: pubkey_from_text(texts[k]@)->Ok_0 },
        ) {
        let k = choose|k: int|
            #![trigger texts[k]]
            0 <= k < texts.len() && keys.contains(
                Pubkey { bytes: pubkey_from_text(texts[k]@)->Ok_0 },
            );
        assert(set.contains(list[k]) && keys.contains(list[k]));
    }
    if set.subset_of(keys) {
        assert forall|k: int|
            #![trigger texts[k]]
            0 <= k < texts.len() implies keys.contains(
            Pubkey { bytes: pubkey_from_text(texts[k]@)->Ok_0 },
        ) by {
            assert(set.contains(list[k]));
        }
    }
    if forall|k: int|
        #![trigger texts[k]]
        0 <= k < texts.len() ==> keys.contains(
            Pubkey { bytes: pubkey_from_text(texts[k]@)->Ok_0 },
        ) {
        assert forall|key: Pubkey| set.contains(key) implies keys.contains(key) by {
            assert(list.contains(key));
            let k = choose|k: int| 0 <= k < list.len() && list[k] == key;
            assert(Pubkey::parsed(texts[k]@) == Ok::<Pubkey, ParsePubkeyError>(list[k]));
            assert(keys.contains(Pubkey { bytes: pubkey_from_text(texts[k]@)->Ok_0 }));
        }
    }
}

/// An address is in a set that was read from texts where one of them is its base58 form.
pub proof fn lemma_texts_name(texts: Seq<String>, reject: Set<Pubkey>, key: Pubkey)
    requires
        decoded_pubkeys(texts, reject) is Ok,
    ensures
        ({
            let set = decoded_pubkeys(texts, reject)->Ok_0.to_set();
            &&& set == Set::<Pubkey>::empty() <==> texts.len() == 0
            &&& set.contains(key) <==> exists|k: int|
                #![trigger texts[k]]
                0 <= k < texts.len() && pubkey_from_text(texts[k]@) == Ok::<
                    [u8; 32],
                    ParsePubkeyError,
                >(key.bytes)
        }),
{
    lemma_decoded_set(texts, reject);
    lemma_decoded_pubkeys(texts, reject);
    let list = decoded_pubkeys(texts, reject)->Ok_0;
    if list.to_set().contains(key) {
        let k = choose|k: int| 0 <= k < list.len() && list[k] == key;
        assert(Pubkey::parsed(texts[k]@) == Ok::<Pubkey, ParsePubkeyError>(list[k]));
    }
    if exists|k: int|
        #![trigger texts[k]]
        0 <= k < texts.len() && pubkey_from_text(texts[k]@) == Ok::<[u8; 32], ParsePubkeyError>(
            key.bytes,
        ) {
        let k = choose|k: int|
            #![trigger texts[k]]
            0 <= k < texts.len() && pubkey_from_text(texts[k]@) == Ok::<[u8; 32], ParsePubkeyError>(
                key.bytes,
            );
        assert(Pubkey::parsed(texts[k]@) == Ok::<Pubkey, ParsePubkeyError>(list[k]));
        assert(list[k] == key);
        assert(list.contains(key));
    }
}

/// A number that memory can be addressed with stands for itself.
pub proof fn lemma_memory_numbers(number: u64)
    requires
        number <= usize::MAX,
    ensures
        in_memory(number) == number,
{
}

/// Bytes lie in data at an offset where the data reaches as far as they do and agrees with them
/// byte by byte.
pub proof fn lemma_found_byte_by_byte(offset: usize, bytes: Seq<u8>, data: Seq<u8>)
    ensures
        found_at(offset, bytes, data) <==> {
            &&& offset + bytes.len() <= data.len()
            &&& forall|m: int|
                    offset <= m < offset + bytes.len() ==> #[trigger] data[m] == bytes[m
                        - offset]
        },
{
    if offset + bytes.len() <= data.len() {
        let part = data.subrange(offset as int, offset + bytes.len());
        if found_at(offset, bytes, data) {
            assert forall|m: int| offset <= m < offset + bytes.len() implies #[trigger] data[m]
                == bytes[m - offset] by {
                assert(part[m - offset] == data[m]);
            }
        }
        if forall|m: int|
            offset <= m < offset + bytes.len() ==> #[trigger] data[m] == bytes[m - offset] {
            assert forall|n: int| 0 <= n < bytes.len() implies part[n] == bytes[n] by {
                assert(data[offset + n] == bytes[offset + n - offset]);
            }
            assert(part =~= bytes);
        }
    }
}

/// Of conditions that were accepted each says what to look for.
proof fn lemma_condition_is_whole(filters: Seq<SubscribeRequestFilterAccountsFilter>, j: int)
    requires
        gathered(filters) is Ok,
        0 <= j < filters.len(),
    ensures
        exists|state| (#[trigger] extended(state, filters[j])) is Ok,
    decreases filters.len(),
{
    let rest = filters.drop_last();
    if j == filters.len() - 1 {
        assert(extended(gathered(rest)->Ok_0, filters[j]) is Ok);
    } else {
        lemma_condition_is_whole(rest, j);
        assert(rest[j] == filters[j]);
    }
}

/// What a requested condition comes to, read off the request.
proof fn lemma_condition_read(
    filters: Seq<SubscribeRequestFilterAccountsFilter>,
    data: Seq<u8>,
    lamports: u64,
    j: int,
)
    requires
        gathered(filters) is Ok,
        0 <= j < filters.len(),
    ensures
        condition_holds(filters[j], data, lamports) <==> match filters[j].filter {
            Some(AccountsFilterDataOneof::Memcmp(memcmp)) => {
                let offset = in_memory(memcmp.offset);
                let bytes = match memcmp.data {
                    Some(AccountsFilterMemcmpOneof::Bytes(bytes)) => bytes@,
                    Some(AccountsFilterMemcmpOneof::Base58(text)) => base58_bytes(text@)->0,
                    Some(AccountsFilterMemcmpOneof::Base64(text)) => base64_bytes(text@)->0,
                    None => Seq::empty(),
                };
                &&& offset + bytes.len() <= data.len()
                &&& forall|m: int|
                    offset <= m < offset + bytes.len() ==> #[trigger] data[m] == bytes[m
                        - offset]
            },
            Some(AccountsFilterDataOneof::Datasize(size)) => data.len() == in_memory(size),
            Some(AccountsFilterDataOneof::TokenAccountState(_)) => valid_token_account(data),
            Some(AccountsFilterDataOneof::Lamports(condition)) => match condition.cmp {
                Some(AccountsFilterLamports::Eq(value)) => lamports == value,
                Some(AccountsFilterLamports::Ne(value)) => lamports != value,
                Some(AccountsFilterLamports::Lt(value)) => lamports < value,
                Some(AccountsFilterLamports::Gt(value)) => value < lamports,
                None => false,
            },
            None => false,
        },
{
    lemma_condition_is_whole(filters, j);
    if let Some(AccountsFilterDataOneof::Memcmp(memcmp)) = filters[j].filter {
        assert(requested_data(memcmp.data) is Ok);
        lemma_found_byte_by_byte(
            in_memory(memcmp.offset),
            requested_data(memcmp.data)->Ok_0,
            data,
        );
    }
}

proof fn lemma_accounts_filter_accepts(
    name: Seq<char>,
    asked: SubscribeRequestFilterAccounts,
    limits: FilterLimitsAccounts,
    names: FilterNames,
    message: MessageAccount,
)
    requires
        crate::accounts::requested_filter(name, asked, limits, names) is Ok,
    ensures
        crate::accounts::met_by(message)(
            crate::accounts::requested_filter(name, asked, limits, names)->Ok_0.1,
        ) <==> {
            let account = *message.account;
            &&& asked.nonempty_txn_signature is Some ==> asked.nonempty_txn_signature->0 == (
            account.txn_signature is Some)
            &&& asked.account@.len() > 0 ==> exists|k: int|
                #![trigger asked.account@[k]]
                0 <= k < asked.account@.len() && pubkey_from_text(asked.account@[k]@) == Ok::<
                    [u8; 32],
                    ParsePubkeyError,
                >(account.pubkey.bytes)
            &&& asked.owner@.len() > 0 ==> exists|k: int|
                #![trigger asked.owner@[k]]
                0 <= k < asked.owner@.len() && pubkey_from_text(asked.owner@[k]@) == Ok::<
                    [u8; 32],
                    ParsePubkeyError,
                >(account.owner.bytes)
            &&& forall|j: int|
                0 <= j < asked.filters@.len() ==> condition_holds(
                    #[trigger] asked.filters@[j],
                    account.data@,
                    account.lamports,
                )
        },
{
    let account = *message.account;
    lemma_texts_name(asked.account@, limits.account_reject@, account.pubkey);
    lemma_texts_name(asked.owner@, limits.owner_reject@, account.owner);
    lemma_every_condition_holds(asked.filters@, account.data@, account.lamports);
}

/// An accepted filter on accounts gives an update that names it exactly where the write came with
/// a transaction or without, as it asks; the address is the one that some text of its list stands
/// for, if it has such a list, and so is the owner; and each of its conditions holds: the bytes to
/// find agree with the data one by one, the length is the one stated, the data is a token account,
/// the lamports compare as stated.
pub proof fn lemma_accounts_are_chosen(
    config: SubscribeRequest,
    limits: FilterLimits,
    names: FilterNames,
    message: MessageAccount,
    commitment: Option<CommitmentLevel>,
    i: int,
)
    requires
        FilterView::requested(config, limits, names) is Ok,
        unique_names(config.accounts@),
        0 <= i < config.accounts@.len(),
    ensures
        ({
            let updates = FilterView::requested(config, limits, names)->Ok_0.updates(
                Message::Account(message),
                commitment,
            );
            updates.len() == 1 && updates[0].filters.contains(config.accounts@[i].0@)
        }) <==> {
            let asked = config.accounts@[i].1;
            let account = *message.account;
            &&& asked.nonempty_txn_signature is Some ==> asked.nonempty_txn_signature->0 == (
            account.txn_signature is Some)
            &&& asked.account@.len() > 0 ==> exists|k: int|
                #![trigger asked.account@[k]]
                0 <= k < asked.account@.len() && pubkey_from_text(asked.account@[k]@) == Ok::<
                    [u8; 32],
                    ParsePubkeyError,
                >(account.pubkey.bytes)
            &&& asked.owner@.len() > 0 ==> exists|k: int|
                #![trigger asked.owner@[k]]
                0 <= k < asked.owner@.len() && pubkey_from_text(asked.owner@[k]@) == Ok::<
                    [u8; 32],
                    ParsePubkeyError,
                >(account.owner.bytes)
            &&& forall|j: int|
                0 <= j < asked.filters@.len() ==> match (#[trigger] asked.filters@[j]).filter {
                    Some(AccountsFilterDataOneof::Memcmp(memcmp)) => {
                        let offset = in_memory(memcmp.offset);
                        let bytes = match memcmp.data {
                            Some(AccountsFilterMemcmpOneof::Bytes(bytes)) => bytes@,
                            Some(AccountsFilterMemcmpOneof::Base58(text)) => base58_bytes(text@)->0,
                            Some(AccountsFilterMemcmpOneof::Base64(text)) => base64_bytes(text@)->0,
                            None => Seq::empty(),
                        };
                        &&& offset + bytes.len() <= account.data@.len()
                        &&& forall|m: int|
                    offset <= m < offset + bytes.len() ==> #[trigger] account.data@[m] == bytes[m
                        - offset]
                    },
                    Some(AccountsFilterDataOneof::Datasize(size)) => account.data@.len()
                        == in_memory(size),
                    Some(AccountsFilterDataOneof::TokenAccountState(_)) => valid_token_account(
                        account.data@,
                    ),
                    Some(AccountsFilterDataOneof::Lamports(condition)) => match condition.cmp {
                        Some(AccountsFilterLamports::Eq(value)) => account.lamports == value,
                        Some(AccountsFilterLamports::Ne(value)) => account.lamports != value,
                        Some(AccountsFilterLamports::Lt(value)) => account.lamports < value,
                        Some(AccountsFilterLamports::Gt(value)) => value < account.lamports,
                        None => false,
                    },
                    None => false,
                }
        },
{
    let filter = FilterView::requested(config, limits, names)->Ok_0;
    let asked = config.accounts@[i].1;
    let account = *message.account;
    let results = crate::accounts::each_requested(config.accounts@, limits.accounts, names);
    lemma_accepted_names(config, limits, names);
    lemma_collected_at(results, i);
    lemma_chosen_at(config.accounts@, filter.accounts, crate::accounts::met_by(message), i);
    lemma_accounts_filter_accepts(
        config.accounts@[i].0@,
        asked,
        limits.accounts,
        names,
        message,
    );
    assert(requested_state(asked.filters@) is Ok);
    assert forall|j: int| 0 <= j < asked.filters@.len() implies condition_holds(
        #[trigger] asked.filters@[j],
        account.data@,
        account.lamports,
    ) == match asked.filters@[j].filter {
        Some(AccountsFilterDataOneof::Memcmp(memcmp)) => {
            let offset = in_memory(memcmp.offset);
            let bytes = match memcmp.data {
                Some(AccountsFilterMemcmpOneof::Bytes(bytes)) => bytes@,
                Some(AccountsFilterMemcmpOneof::Base58(text)) => base58_bytes(text@)->0,
                Some(AccountsFilterMemcmpOneof::Base64(text)) => base64_bytes(text@)->0,
                None => Seq::empty(),
            };
            &&& offset + bytes.len() <= account.data@.len()
            &&& forall|m: int|
                    offset <= m < offset + bytes.len() ==> #[trigger] account.data@[m] == bytes[m
                        - offset]
        },
        Some(AccountsFilterDataOneof::Datasize(size)) => account.data@.len() == in_memory(size),
        Some(AccountsFilterDataOneof::TokenAccountState(_)) => valid_token_account(account.data@),
        Some(AccountsFilterDataOneof::Lamports(condition)) => match condition.cmp {
            Some(AccountsFilterLamports::Eq(value)) => account.lamports == value,
            Some(AccountsFilterLamports::Ne(value)) => account.lamports != value,
            Some(AccountsFilterLamports::Lt(value)) => account.lamports < value,
            Some(AccountsFilterLamports::Gt(value)) => value < account.lamports,
            None => false,
        },
        None => false,
    } by {
        lemma_condition_read(asked.filters@, account.data@, account.lamports, j);
    }
    let updates = filter.updates(Message::Account(message), commitment);
    let name = config.accounts@[i].0@;
    let named = chosen(filter.accounts, crate::accounts::met_by(message));
    if named.contains(name) {
        assert(named.len() > 0);
    }
}

/// An accepted filter on slots gives an update that names it exactly where the slot has reached
/// the very commitment level that the subscriber is at, if the filter goes by commitment, and has
/// reached some commitment level, unless the filter takes what lies between too.
pub proof fn lemma_slots_are_chosen(
    config: SubscribeRequest,
    limits: FilterLimits,
    names: FilterNames,
    message: MessageSlot,
    commitment: Option<CommitmentLevel>,
    i: int,
)
    requires
        FilterView::requested(config, limits, names) is Ok,
        unique_names(config.slots@),
        0 <= i < config.slots@.len(),
    ensures
        ({
            let updates = FilterView::requested(config, limits, names)->Ok_0.updates(
                Message::Slot(message),
                commitment,
            );
            updates.len() == 1 && updates[0].filters.contains(config.slots@[i].0@)
        }) <==> {
            let asked = config.slots@[i].1;
            &&& asked.filter_by_commitment == Some(true) ==> {
                ||| commitment == Some(CommitmentLevel::Processed) && message.status is Processed
                ||| commitment == Some(CommitmentLevel::Confirmed) && message.status is Confirmed
                ||| commitment == Some(CommitmentLevel::Finalized) && message.status is Finalized
            }
            &&& asked.interslot_updates == Some(true) || message.status is Processed
                || message.status is Confirmed || message.status is Finalized
        },
{
    let filter = FilterView::requested(config, limits, names)->Ok_0;
    let accepts = crate::slots::met_by(message, commitment);
    lemma_accepted_names(config, limits, names);
    lemma_collected_at(crate::slots::each_requested(config.slots@, names), i);
    lemma_chosen_at(config.slots@, filter.slots, accepts, i);
    if chosen(filter.slots, accepts).contains(config.slots@[i].0@) {
        assert(chosen(filter.slots, accepts).len() > 0);
    }
}

proof fn lemma_transactions_filter_accepts(
    name: Seq<char>,
    asked: SubscribeRequestFilterTransactions,
    limits: FilterLimitsTransactions,
    names: FilterNames,
    message: MessageTransaction,
)
    requires
        crate::transactions::requested_filter(name, asked, limits, names) is Ok,
    ensures
        crate::transactions::met_by(message)(
            crate::transactions::requested_filter(name, asked, limits, names)->Ok_0.1,
        ) <==> {
            let tx = *message.transaction;
            &&& asked.vote is Some ==> asked.vote->0 == tx.is_vote
            &&& asked.failed is Some ==> asked.failed->0 == (tx.meta.err is Some)
            &&& asked.signature is Some ==> {
                &&& tx.transaction.signatures@.len() > 0
                &&& signature_from_text(asked.signature->0@)->Ok_0@
                    == tx.transaction.signatures@[0]@
            }
            &&& asked.account_include@.len() > 0 ==> exists|k: int|
                #![trigger asked.account_include@[k]]
                0 <= k < asked.account_include@.len() && tx.account_keys@.contains(
                    Pubkey { bytes: pubkey_from_text(asked.account_include@[k]@)->Ok_0 },
                )
            &&& forall|k: int|
                #![trigger asked.account_exclude@[k]]
                0 <= k < asked.account_exclude@.len() ==> !tx.account_keys@.contains(
                    Pubkey { bytes: pubkey_from_text(asked.account_exclude@[k]@)->Ok_0 },
                )
            &&& forall|k: int|
                #![trigger asked.account_required@[k]]
                0 <= k < asked.account_required@.len() ==> tx.account_keys@.contains(
                    Pubkey { bytes: pubkey_from_text(asked.account_required@[k]@)->Ok_0 },
                )
        },
{
    let keys = message.transaction.account_keys@;
    lemma_texts_meet(asked.account_include@, limits.account_include_reject@, keys);
    lemma_texts_meet(asked.account_exclude@, Set::empty(), keys);
    lemma_texts_meet(asked.account_required@, Set::empty(), keys);
}

/// An accepted filter on transactions gives an update with the whole transaction that names it
/// exactly where the transaction is a vote or not, and failed or not, as it asks; its first
/// signature is the one asked for; at least one of the accounts to include is among its accounts,
/// if there are any, whatever else is asked; no account to exclude is; every required one is.
pub proof fn lemma_transactions_are_chosen(
    config: SubscribeRequest,
    limits: FilterLimits,
    names: FilterNames,
    message: MessageTransaction,
    commitment: Option<CommitmentLevel>,
    i: int,
)
    requires
        FilterView::requested(config, limits, names) is Ok,
        unique_names(config.transactions@),
        0 <= i < config.transactions@.len(),
    ensures
        ({
            let updates = FilterView::requested(config, limits, names)->Ok_0.updates(
                Message::Transaction(message),
                commitment,
            );
            exists|u: int|
                {
                    &&& 0 <= u < updates.len()
                    &&& (#[trigger] updates[u]).message is Transaction
                    &&& updates[u].filters.contains(config.transactions@[i].0@)
                }
        }) <==> {
            let asked = config.transactions@[i].1;
            let tx = *message.transaction;
            &&& asked.vote is Some ==> asked.vote->0 == tx.is_vote
            &&& asked.failed is Some ==> asked.failed->0 == (tx.meta.err is Some)
            &&& asked.signature is Some ==> {
                &&& tx.transaction.signatures@.len() > 0
                &&& signature_from_text(asked.signature->0@)->Ok_0@
                    == tx.transaction.signatures@[0]@
            }
            &&& asked.account_include@.len() > 0 ==> exists|k: int|
                #![trigger asked.account_include@[k]]
                0 <= k < asked.account_include@.len() && tx.account_keys@.contains(
                    Pubkey { bytes: pubkey_from_text(asked.account_include@[k]@)->Ok_0 },
                )
            &&& forall|k: int|
                #![trigger asked.account_exclude@[k]]
                0 <= k < asked.account_exclude@.len() ==> !tx.account_keys@.contains(
                    Pubkey { bytes: pubkey_from_text(asked.account_exclude@[k]@)->Ok_0 },
                )
            &&& forall|k: int|
                #![trigger asked.account_required@[k]]
                0 <= k < asked.account_required@.len() ==> tx.account_keys@.contains(
                    Pubkey { bytes: pubkey_from_text(asked.account_required@[k]@)->Ok_0 },
                )
        },
{
    let filter = FilterView::requested(config, limits, names)->Ok_0;
    let accepts = crate::transactions::met_by(message);
    let name = config.transactions@[i].0@;
    lemma_accepted_names(config, limits, names);
    lemma_collected_at(
        crate::transactions::each_requested(
            config.transactions@,
            limits.transactions,
            names,
        ),
        i,
    );
    lemma_chosen_at(config.transactions@, filter.transactions, accepts, i);
    lemma_transactions_filter_accepts(
        name,
        config.transactions@[i].1,
        limits.transactions,
        names,
        message,
    );
    let whole = transaction_updates(
        FilterTransactionsType::Transaction,
        filter.transactions,
        message,
    );
    let updates = filter.updates(Message::Transaction(message), commitment);
    if chosen(filter.transactions, accepts).contains(name) {
        assert(chosen(filter.transactions, accepts).len() > 0);
        assert(updates[0].filters.contains(name));
    }
}

/// An accepted filter on transaction statuses gives an update with the status that names it
/// exactly where a filter on transactions that asks for the same would give one.
pub proof fn lemma_statuses_are_chosen(
    config: SubscribeRequest,
    limits: FilterLimits,
    names: FilterNames,
    message: MessageTransaction,
    commitment: Option<CommitmentLevel>,
    i: int,
)
    requires
        FilterView::requested(config, limits, names) is Ok,
        unique_names(config.transactions_status@),
        0 <= i < config.transactions_status@.len(),
    ensures
        ({
            let updates = FilterView::requested(config, limits, names)->Ok_0.updates(
                Message::Transaction(message),
                commitment,
            );
            exists|u: int|
                {
                    &&& 0 <= u < updates.len()
                    &&& (#[trigger] updates[u]).message is TransactionStatus
                    &&& updates[u].filters.contains(config.transactions_status@[i].0@)
                }
        }) <==> {
            let asked = config.transactions_status@[i].1;
            let tx = *message.transaction;
            &&& asked.vote is Some ==> asked.vote->0 == tx.is_vote
            &&& asked.failed is Some ==> asked.failed->0 == (tx.meta.err is Some)
            &&& asked.signature is Some ==> {
                &&& tx.transaction.signatures@.len() > 0
                &&& signature_from_text(asked.signature->0@)->Ok_0@
                    == tx.transaction.signatures@[0]@
            }
            &&& asked.account_include@.len() > 0 ==> exists|k: int|
                #![trigger asked.account_include@[k]]
                0 <= k < asked.account_include@.len() && tx.account_keys@.contains(
                    Pubkey { bytes: pubkey_from_text(asked.account_include@[k]@)->Ok_0 },
                )
            &&& forall|k: int|
                #![trigger asked.account_exclude@[k]]
                0 <= k < asked.account_exclude@.len() ==> !tx.account_keys@.contains(
                    Pubkey { bytes: pubkey_from_text(asked.account_exclude@[k]@)->Ok_0 },
                )
            &&& forall|k: int|
                #![trigger asked.account_required@[k]]
                0 <= k < asked.account_required@.len() ==> tx.account_keys@.contains(
                    Pubkey { bytes: pubkey_from_text(asked.account_required@[k]@)->Ok_0 },
                )
        },
{
    let filter = FilterView::requested(config, limits, names)->Ok_0;
    let accepts = crate::transactions::met_by(message);
    let name = config.transactions_status@[i].0@;
    lemma_accepted_names(config, limits, names);
    lemma_collected_at(
        crate::transactions::each_requested(
            config.transactions_status@,
            limits.transactions_status,
            names,
        ),
        i,
    );
    lemma_chosen_at(config.transactions_status@, filter.transactions_status, accepts, i);
    lemma_transactions_filter_accepts(
        name,
        config.transactions_status@[i].1,
        limits.transactions_status,
        names,
        message,
    );
    let whole = transaction_updates(
        FilterTransactionsType::Transaction,
        filter.transactions,
        message,
    );
    let updates = filter.updates(Message::Transaction(message), commitment);
    if chosen(filter.transactions_status, accepts).contains(name) {
        assert(chosen(filter.transactions_status, accepts).len() > 0);
        assert(updates[whole.len() as int].filters.contains(name));
    }
}

proof fn lemma_deshred_filter_accepts(
    name: Seq<char>,
    asked: SubscribeRequestFilterDeshredTransactions,
    limits: FilterLimitsDeshredTransactions,
    names: FilterNames,
    message: MessageDeshredTransaction,
)
    requires
        crate::deshred_transactions::requested_filter(name, asked, limits, names) is Ok,
    ensures
        crate::deshred_transactions::met_by(message)(
            crate::deshred_transactions::requested_filter(name, asked, limits, names)->Ok_0.1,
        ) <==> {
            let tx = *message.transaction;
            &&& asked.vote is Some ==> asked.vote->0 == tx.is_vote
            &&& asked.account_include@.len() > 0 ==> exists|k: int|
                #![trigger asked.account_include@[k]]
                0 <= k < asked.account_include@.len() && ({
                    let key = Pubkey { bytes: pubkey_from_text(asked.account_include@[k]@)->Ok_0 };
                    ||| tx.static_account_keys@.contains(key)
                    ||| tx.loaded_writable_addresses@.contains(key)
                    ||| tx.loaded_readonly_addresses@.contains(key)
                })
            &&& forall|k: int|
                #![trigger asked.account_exclude@[k]]
                0 <= k < asked.account_exclude@.len() ==> !({
                    let key = Pubkey { bytes: pubkey_from_text(asked.account_exclude@[k]@)->Ok_0 };
                    ||| tx.static_account_keys@.contains(key)
                    ||| tx.loaded_writable_addresses@.contains(key)
                    ||| tx.loaded_readonly_addresses@.contains(key)
                })
            &&& forall|k: int|
                #![trigger asked.account_required@[k]]
                0 <= k < asked.account_required@.len() ==> ({
                    let key = Pubkey { bytes: pubkey_from_text(asked.account_required@[k]@)->Ok_0 };
                    ||| tx.static_account_keys@.contains(key)
                    ||| tx.loaded_writable_addresses@.contains(key)
                    ||| tx.loaded_readonly_addresses@.contains(key)
                })
        },
{
    let keys = message.transaction.keys();
    lemma_texts_meet(asked.account_include@, limits.account_include_reject@, keys);
    lemma_texts_meet(asked.account_exclude@, Set::empty(), keys);
    lemma_texts_meet(asked.account_required@, Set::empty(), keys);
}

/// An accepted filter on received transactions gives an update that names it exactly where the
/// transaction is a vote or not, as it asks; at least one of the accounts to include is in one of
/// the three lists of its accounts, if there are any to include, whatever else is asked; no
/// account to exclude is; every required one is.
pub proof fn lemma_received_transactions_are_chosen(
    config: SubscribeDeshredRequest,
    limits: FilterLimits,
    names: FilterNames,
    message: MessageDeshredTransaction,
    i: int,
)
    requires
        DeshredFilterView::requested(config, limits, names) is Ok,
        unique_names(config.deshred_transactions@),
        0 <= i < config.deshred_transactions@.len(),
    ensures
        ({
            let updates = DeshredFilterView::requested(config, limits, names)->Ok_0.updates(
                Message::DeshredTransaction(message),
            );
            updates.len() == 1 && updates[0].filters.contains(config.deshred_transactions@[i].0@)
        }) <==> {
            let asked = config.deshred_transactions@[i].1;
            let tx = *message.transaction;
            &&& asked.vote is Some ==> asked.vote->0 == tx.is_vote
            &&& asked.account_include@.len() > 0 ==> exists|k: int|
                #![trigger asked.account_include@[k]]
                0 <= k < asked.account_include@.len() && ({
                    let key = Pubkey { bytes: pubkey_from_text(asked.account_include@[k]@)->Ok_0 };
                    ||| tx.static_account_keys@.contains(key)
                    ||| tx.loaded_writable_addresses@.contains(key)
                    ||| tx.loaded_readonly_addresses@.contains(key)
                })
            &&& forall|k: int|
                #![trigger asked.account_exclude@[k]]
                0 <= k < asked.account_exclude@.len() ==> !({
                    let key = Pubkey { bytes: pubkey_from_text(asked.account_exclude@[k]@)->Ok_0 };
                    ||| tx.static_account_keys@.contains(key)
                    ||| tx.loaded_writable_addresses@.contains(key)
                    ||| tx.loaded_readonly_addresses@.contains(key)
                })
            &&& forall|k: int|
                #![trigger asked.account_required@[k]]
                0 <= k < asked.account_required@.len() ==> ({
                    let key = Pubkey { bytes: pubkey_from_text(asked.account_required@[k]@)->Ok_0 };
                    ||| tx.static_account_keys@.contains(key)
                    ||| tx.loaded_writable_addresses@.contains(key)
                    ||| tx.loaded_readonly_addresses@.contains(key)
                })
        },
{
    let filter = DeshredFilterView::requested(config, limits, names)->Ok_0;
    let accepts = crate::deshred_transactions::met_by(message);
    let configs = config.deshred_transactions@;
    lemma_accepted_deshred_names(config, limits, names);
    lemma_collected_at(
        crate::deshred_transactions::each_requested(configs, limits.deshred_transactions, names),
        i,
    );
    lemma_chosen_at(configs, filter.deshred_transactions, accepts, i);
    lemma_deshred_filter_accepts(
        configs[i].0@,
        configs[i].1,
        limits.deshred_transactions,
        names,
        message,
    );
    if chosen(filter.deshred_transactions, accepts).contains(configs[i].0@) {
        assert(chosen(filter.deshred_transactions, accepts).len() > 0);
    }
}

/// An accepted filter on blocks gives an update for every block, in the place of the filter in the
/// request, that names it alone. The update carries a transaction of the block exactly where
/// transactions are handed on and, if accounts are named, one of them at least is among those of
/// the transaction; an account of the block exactly where accounts are handed on and, if accounts
/// are named, it is one of them; and all entries of the block or none, as asked.
pub proof fn lemma_blocks_are_cut_down(
    config: SubscribeRequest,
    limits: FilterLimits,
    names: FilterNames,
    message: Arc<MessageBlock>,
    commitment: Option<CommitmentLevel>,
    i: int,
    tx: Arc<MessageTransactionInfo>,
    account: Arc<MessageAccountInfo>,
)
    requires
        FilterView::requested(config, limits, names) is Ok,
        0 <= i < config.blocks@.len(),
    ensures
        ({
            let filter = FilterView::requested(config, limits, names)->Ok_0;
            let updates = filter.updates(Message::Block(message), commitment);
            let asked = config.blocks@[i].1;
            let body = updates[i].message;
            &&& updates.len() == config.blocks@.len()
            &&& updates[i].filters == seq![config.blocks@[i].0@]
            &&& updates[i].created_at == Some(message.created_at)
            &&& body is Block
            &&& body->meta == message.meta
            &&& body->updated_account_count == message.updated_account_count
            &&& body->accounts_data_slice == filter.accounts_data_slice
            &&& body->transactions.contains(tx) <==> {
                &&& message.transactions@.contains(tx)
                &&& asked.include_transactions != Some(false)
                &&& asked.account_include@.len() > 0 ==> exists|k: int|
                    #![trigger asked.account_include@[k]]
                    0 <= k < asked.account_include@.len() && tx.account_keys@.contains(
                        Pubkey { bytes: pubkey_from_text(asked.account_include@[k]@)->Ok_0 },
                    )
            }
            &&& body->accounts.contains(account) <==> {
                &&& message.accounts@.contains(account)
                &&& asked.include_accounts == Some(true)
                &&& asked.account_include@.len() > 0 ==> exists|k: int|
                    #![trigger asked.account_include@[k]]
                    0 <= k < asked.account_include@.len() && pubkey_from_text(
                        asked.account_include@[k]@,
                    ) == Ok::<[u8; 32], ParsePubkeyError>(account.pubkey.bytes)
            }
            &&& asked.include_entries == Some(true) ==> body->entries == message.entries@
            &&& asked.include_entries != Some(true) ==> body->entries.len() == 0
        }),
{
    let filter = FilterView::requested(config, limits, names)->Ok_0;
    let asked = config.blocks@[i].1;
    lemma_accepted_counts(config, limits, names);
    lemma_collected_at(
        crate::blocks::each_requested(config.blocks@, limits.blocks, names),
        i,
    );
    let block = *message;
    lemma_block_parts(filter.blocks[i].1, block, tx, account);
    lemma_texts_meet(
        asked.account_include@,
        limits.blocks.account_include_reject@,
        tx.account_keys@,
    );
    lemma_texts_name(
        asked.account_include@,
        limits.blocks.account_include_reject@,
        account.pubkey,
    );
}

/// Items that are picked from a list keep their order.
proof fn lemma_picked_in_order<A>(items: Seq<A>, wanted: spec_fn(A) -> bool, a: int, b: int)
    requires
        0 <= a < b < items.filter(wanted).len(),
    ensures
        exists|i: int, j: int|
            {
                &&& 0 <= i < j < items.len()
                &&& #[trigger] items[i] == items.filter(wanted)[a]
                &&& #[trigger] items[j] == items.filter(wanted)[b]
            },
    decreases items.len(),
{
    reveal(Seq::filter);
    let rest = items.drop_last();
    let kept = rest.filter(wanted);
    if b < kept.len() {
        lemma_picked_in_order(rest, wanted, a, b);
        let (i, j) = choose|i: int, j: int|
            {
                &&& 0 <= i < j < rest.len()
                &&& #[trigger] rest[i] == kept[a]
                &&& #[trigger] rest[j] == kept[b]
            };
        assert(items[i] == rest[i] && items[j] == rest[j]);
    } else {
        assert(kept.contains(kept[a]));
        rest.lemma_filter_contains_rev(wanted, kept[a]);
        let i = choose|i: int| 0 <= i < rest.len() && rest[i] == kept[a];
        assert(items[i] == rest[i]);
        assert(items[items.len() - 1] == items.last());
    }
}

/// Of the items that are picked from a list each is picked as often as the list has it.
proof fn lemma_picked_as_often<A>(items: Seq<A>, wanted: spec_fn(A) -> bool, item: A)
    ensures
        items.filter(wanted).to_multiset().count(item) == if wanted(item) {
            items.to_multiset().count(item)
        } else {
            0
        },
    decreases items.len(),
{
    broadcast use vstd::seq_lib::group_to_multiset_ensures;

    reveal(Seq::filter);
    if items.len() > 0 {
        let rest = items.drop_last();
        lemma_picked_as_often(rest, wanted, item);
        assert(items =~= rest.push(items.last()));
        assert(items.to_multiset() =~= rest.to_multiset().insert(items.last()));
        if wanted(items.last()) {
            let kept = rest.filter(wanted);
            assert(kept.push(items.last()).to_multiset() =~= kept.to_multiset().insert(
                items.last(),
            ));
        }
    }
}

/// A block update carries transactions and accounts in the order that they have in the block, and
/// each that it carries as often as the block has it.
pub proof fn lemma_blocks_keep_their_order(
    config: SubscribeRequest,
    limits: FilterLimits,
    names: FilterNames,
    message: Arc<MessageBlock>,
    commitment: Option<CommitmentLevel>,
    n: int,
    a: int,
    b: int,
    tx: Arc<MessageTransactionInfo>,
    account: Arc<MessageAccountInfo>,
)
    requires
        FilterView::requested(config, limits, names) is Ok,
        0 <= n < config.blocks@.len(),
        0 <= a < b,
    ensures
        ({
            let updates = FilterView::requested(config, limits, names)->Ok_0.updates(
                Message::Block(message),
                commitment,
            );
            let body = updates[n].message;
            &&& body->transactions.contains(tx) ==> body->transactions.to_multiset().count(tx)
                == message.transactions@.to_multiset().count(tx)
            &&& body->accounts.contains(account) ==> body->accounts.to_multiset().count(account)
                == message.accounts@.to_multiset().count(account)
            &&& b < body->transactions.len() ==> exists|i: int, j: int|
                {
                    &&& 0 <= i < j < message.transactions@.len()
                    &&& #[trigger] message.transactions@[i] == body->transactions[a]
                    &&& #[trigger] message.transactions@[j] == body->transactions[b]
                }
            &&& b < body->accounts.len() ==> exists|i: int, j: int|
                {
                    &&& 0 <= i < j < message.accounts@.len()
                    &&& #[trigger] message.accounts@[i] == body->accounts[a]
                    &&& #[trigger] message.accounts@[j] == body->accounts[b]
                }
        }),
{
    let filter = FilterView::requested(config, limits, names)->Ok_0;
    lemma_accepted_counts(config, limits, names);
    let demand = filter.blocks[n].1;
    let wanted_tx = |tx: Arc<MessageTransactionInfo>| demand.wants_transaction(*tx);
    let wanted_account = |account: Arc<MessageAccountInfo>| demand.wants_account(*account);
    let block = *message;
    lemma_block_parts(demand, block, tx, account);
    lemma_picked_as_often(message.transactions@, wanted_tx, tx);
    lemma_picked_as_often(message.accounts@, wanted_account, account);
    if b < demand.transactions(message.transactions@).len() {
        lemma_picked_in_order(message.transactions@, wanted_tx, a, b);
    }
    if b < demand.accounts(message.accounts@).len() {
        lemma_picked_in_order(message.accounts@, wanted_account, a, b);
    }
}

/// Every entry and every block meta gives one update, which carries it and names all filters on
/// entries or on block metas in the order of the request; it gives none where there are none.
pub proof fn lemma_entries_and_metas_are_handed_on(
    config: SubscribeRequest,
    limits: FilterLimits,
    names: FilterNames,
    entry: Arc<MessageEntry>,
    meta: Arc<MessageBlockMeta>,
    commitment: Option<CommitmentLevel>,
)
    requires
        FilterView::requested(config, limits, names) is Ok,
    ensures
        ({
            let filter = FilterView::requested(config, limits, names)->Ok_0;
            let updates = filter.updates(Message::Entry(entry), commitment);
            &&& updates.len() == 1 <==> config.entry@.len() > 0
            &&& updates.len() == 0 <==> config.entry@.len() == 0
            &&& updates.len() == 1 ==> {
                &&& updates[0].message == UpdateBody::Entry(entry)
                &&& updates[0].created_at == Some(entry.created_at)
                &&& updates[0].filters.len() == config.entry@.len()
                &&& forall|i: int|
                    0 <= i < config.entry@.len() ==> updates[0].filters[i] == (
                    #[trigger] config.entry@[i]).0@
            }
        }),
        ({
            let filter = FilterView::requested(config, limits, names)->Ok_0;
            let updates = filter.updates(Message::BlockMeta(meta), commitment);
            &&& updates.len() == 1 <==> config.blocks_meta@.len() > 0
            &&& updates.len() == 0 <==> config.blocks_meta@.len() == 0
            &&& updates.len() == 1 ==> {
                &&& updates[0].message == UpdateBody::BlockMeta(meta)
                &&& updates[0].created_at == Some(meta.created_at)
                &&& updates[0].filters.len() == config.blocks_meta@.len()
                &&& forall|i: int|
                    0 <= i < config.blocks_meta@.len() ==> updates[0].filters[i] == (
                    #[trigger] config.blocks_meta@[i]).0@
            }
        }),
{
    lemma_accepted_names(config, limits, names);
    assert(names_asked(config.entry@).len() == config.entry@.len());
    assert(names_asked(config.blocks_meta@).len() == config.blocks_meta@.len());
}

/// An account, a slot and a received transaction give at most one update each, and a transaction
/// at most one with the whole of it and then one with its status. Each carries all that the
/// message says of its subject.
pub proof fn lemma_updates_carry_their_subject(
    filter: FilterView,
    deshred: DeshredFilterView,
    account: MessageAccount,
    slot: MessageSlot,
    tx: MessageTransaction,
    received: MessageDeshredTransaction,
    commitment: Option<CommitmentLevel>,
)
    ensures
        ({
            let updates = filter.updates(Message::Account(account), commitment);
            &&& updates.len() <= 1
            &&& updates.len() == 1 ==> {
                &&& updates[0].created_at == Some(account.created_at)
                &&& updates[0].message is Account
                &&& updates[0].message->account == account.account
                &&& updates[0].message->Account_slot == account.slot
                &&& updates[0].message->is_startup == account.is_startup
                &&& updates[0].message->data_slice == filter.accounts_data_slice
            }
        }),
        ({
            let updates = filter.updates(Message::Slot(slot), commitment);
            &&& updates.len() <= 1
            &&& updates.len() == 1 ==> {
                &&& updates[0].created_at == Some(slot.created_at)
                &&& updates[0].message == UpdateBody::Slot(slot)
            }
        }),
        ({
            let updates = filter.updates(Message::Transaction(tx), commitment);
            &&& updates.len() <= 2
            &&& updates.len() == 2 ==> {
                &&& updates[0].message is Transaction
                &&& updates[1].message is TransactionStatus
            }
            &&& forall|u: int|
                0 <= u < updates.len() ==> {
                    &&& (#[trigger] updates[u]).created_at == Some(tx.created_at)
                    &&& updates[u].message is Transaction || updates[u].message
                        is TransactionStatus
                    &&& updates[u].message is Transaction ==> {
                        &&& updates[u].message->Transaction_transaction == tx.transaction
                        &&& updates[u].message->Transaction_slot == tx.slot
                    }
                    &&& updates[u].message is TransactionStatus ==> {
                        &&& updates[u].message->TransactionStatus_transaction == tx.transaction
                        &&& updates[u].message->TransactionStatus_slot == tx.slot
                    }
                }
        }),
        ({
            let updates = deshred.updates(Message::DeshredTransaction(received));
            &&& updates.len() <= 1
            &&& updates.len() == 1 ==> {
                &&& updates[0].created_at == Some(received.created_at)
                &&& updates[0].message is DeshredTransaction
                &&& updates[0].message->transaction == received.transaction
                &&& updates[0].message->slot == received.slot
            }
        }),
{
}

proof fn lemma_chosen_in_order<T, M>(
    configs: Seq<(String, T)>,
    filters: Seq<(Seq<char>, M)>,
    accepts: spec_fn(M) -> bool,
    a: int,
    b: int,
)
    requires
        names_in(filters) == names_asked(configs),
        0 <= a < b < chosen(filters, accepts).len(),
    ensures
        exists|i: int, j: int|
            {
                &&& 0 <= i < j < configs.len()
                &&& (#[trigger] configs[i]).0@ == chosen(filters, accepts)[a]
                &&& (#[trigger] configs[j]).0@ == chosen(filters, accepts)[b]
            },
{
    let keep = |f: (Seq<char>, M)| accepts(f.1);
    lemma_picked_in_order(filters, keep, a, b);
    let (i, j) = choose|i: int, j: int|
        {
            &&& 0 <= i < j < filters.len()
            &&& #[trigger] filters[i] == filters.filter(keep)[a]
            &&& #[trigger] filters[j] == filters.filter(keep)[b]
        };
    assert(names_in(filters).len() == filters.len());
    assert(names_asked(configs).len() == configs.len());
    assert(names_in(filters)[i] == names_asked(configs)[i]);
    assert(names_in(filters)[j] == names_asked(configs)[j]);
    assert(configs[i].0@ == chosen(filters, accepts)[a]);
    assert(configs[j].0@ == chosen(filters, accepts)[b]);
}

/// An update names filters of the request alone, in the order that they have there.
pub proof fn lemma_filters_are_named_in_order(
    config: SubscribeRequest,
    limits: FilterLimits,
    names: FilterNames,
    account: MessageAccount,
    slot: MessageSlot,
    tx: MessageTransaction,
    commitment: Option<CommitmentLevel>,
    a: int,
    b: int,
)
    requires
        FilterView::requested(config, limits, names) is Ok,
        0 <= a < b,
    ensures
        ({
            let filter = FilterView::requested(config, limits, names)->Ok_0;
            let updates = filter.updates(Message::Account(account), commitment);
            updates.len() == 1 && b < updates[0].filters.len() ==> exists|i: int, j: int|
                {
                    &&& 0 <= i < j < config.accounts@.len()
                    &&& (#[trigger] config.accounts@[i]).0@ == updates[0].filters[a]
                    &&& (#[trigger] config.accounts@[j]).0@ == updates[0].filters[b]
                }
        }),
        ({
            let filter = FilterView::requested(config, limits, names)->Ok_0;
            let updates = filter.updates(Message::Slot(slot), commitment);
            updates.len() == 1 && b < updates[0].filters.len() ==> exists|i: int, j: int|
                {
                    &&& 0 <= i < j < config.slots@.len()
                    &&& (#[trigger] config.slots@[i]).0@ == updates[0].filters[a]
                    &&& (#[trigger] config.slots@[j]).0@ == updates[0].filters[b]
                }
        }),
        ({
            let filter = FilterView::requested(config, limits, names)->Ok_0;
            let updates = filter.updates(Message::Transaction(tx), commitment);
            forall|u: int|
                0 <= u < updates.len() && b < (#[trigger] updates[u]).filters.len() ==> {
                    ||| updates[u].message is Transaction && exists|i: int, j: int|
                        {
                            &&& 0 <= i < j < config.transactions@.len()
                            &&& (#[trigger] config.transactions@[i]).0@ == updates[u].filters[a]
                            &&& (#[trigger] config.transactions@[j]).0@ == updates[u].filters[b]
                        }
                    ||| updates[u].message is TransactionStatus && exists|i: int, j: int|
                        {
                            &&& 0 <= i < j < config.transactions_status@.len()
                            &&& (#[trigger] config.transactions_status@[i]).0@
                                == updates[u].filters[a]
                            &&& (#[trigger] config.transactions_status@[j]).0@
                                == updates[u].filters[b]
                        }
                }
        }),
{
    let filter = FilterView::requested(config, limits, names)->Ok_0;
    lemma_accepted_names(config, limits, names);
    let by_account = crate::accounts::met_by(account);
    let by_slot = crate::slots::met_by(slot, commitment);
    let by_tx = crate::transactions::met_by(tx);
    if b < chosen(filter.accounts, by_account).len() {
        lemma_chosen_in_order(config.accounts@, filter.accounts, by_account, a, b);
    }
    if b < chosen(filter.slots, by_slot).len() {
        lemma_chosen_in_order(config.slots@, filter.slots, by_slot, a, b);
    }
    if b < chosen(filter.transactions, by_tx).len() {
        lemma_chosen_in_order(config.transactions@, filter.transactions, by_tx, a, b);
    }
    if b < chosen(filter.transactions_status, by_tx).len() {
        lemma_chosen_in_order(config.transactions_status@, filter.transactions_status, by_tx, a, b);
    }
}

/// Every name that an update carries is that of a filter that was asked for, of the kind that the
/// update is of.
pub proof fn lemma_only_requested_names(
    config: SubscribeRequest,
    limits: FilterLimits,
    names: FilterNames,
    message: Message,
    commitment: Option<CommitmentLevel>,
    u: int,
    name: Seq<char>,
)
    requires
        FilterView::requested(config, limits, names) is Ok,
        0 <= u < FilterView::requested(config, limits, names)->Ok_0.updates(
            message,
            commitment,
        ).len(),
        FilterView::requested(config, limits, names)->Ok_0.updates(
            message,
            commitment,
        )[u].filters.contains(name),
    ensures
        match FilterView::requested(config, limits, names)->Ok_0.updates(
            message,
            commitment,
        )[u].message {
            UpdateBody::Account { .. } => exists|i: int|
                0 <= i < config.accounts@.len() && (#[trigger] config.accounts@[i]).0@ == name,
            UpdateBody::Slot(_) => exists|i: int|
                0 <= i < config.slots@.len() && (#[trigger] config.slots@[i]).0@ == name,
            UpdateBody::Transaction { .. } => exists|i: int|
                {
                    &&& 0 <= i < config.transactions@.len()
                    &&& (#[trigger] config.transactions@[i]).0@ == name
                },
            UpdateBody::TransactionStatus { .. } => exists|i: int|
                {
                    &&& 0 <= i < config.transactions_status@.len()
                    &&& (#[trigger] config.transactions_status@[i]).0@ == name
                },
            UpdateBody::Block { .. } => exists|i: int|
                0 <= i < config.blocks@.len() && (#[trigger] config.blocks@[i]).0@ == name,
            UpdateBody::BlockMeta(_) => exists|i: int|
                {
                    &&& 0 <= i < config.blocks_meta@.len()
                    &&& (#[trigger] config.blocks_meta@[i]).0@ == name
                },
            UpdateBody::Entry(_) => exists|i: int|
                0 <= i < config.entry@.len() && (#[trigger] config.entry@[i]).0@ == name,
            UpdateBody::Pong { .. } => false,
        },
{
    let filter = FilterView::requested(config, limits, names)->Ok_0;
    lemma_accepted_names(config, limits, names);
    match message {
        Message::Account(m) => lemma_chosen_asked(
            config.accounts@,
            filter.accounts,
            crate::accounts::met_by(m),
            name,
        ),
        Message::Slot(m) => lemma_chosen_asked(
            config.slots@,
            filter.slots,
            crate::slots::met_by(m, commitment),
            name,
        ),
        Message::Transaction(m) => {
            lemma_chosen_asked(
                config.transactions@,
                filter.transactions,
                crate::transactions::met_by(m),
                name,
            );
            lemma_chosen_asked(
                config.transactions_status@,
                filter.transactions_status,
                crate::transactions::met_by(m),
                name,
            );
        },
        Message::Block(m) => {
            assert(names_in(filter.blocks)[u] == names_asked(config.blocks@)[u]);
            assert(names_in(filter.blocks).len() == filter.blocks.len());
            assert(names_asked(config.blocks@).len() == config.blocks@.len());
            assert(config.blocks@[u].0@ == name);
        },
        Message::BlockMeta(_) => {
            let i = choose|i: int|
                0 <= i < filter.blocks_meta.len() && filter.blocks_meta[i] == name;
            assert(names_asked(config.blocks_meta@)[i] == config.blocks_meta@[i].0@);
        },
        Message::Entry(_) => {
            let i = choose|i: int| 0 <= i < filter.entries.len() && filter.entries[i] == name;
            assert(names_asked(config.entry@)[i] == config.entry@[i].0@);
        },
        Message::DeshredTransaction(_) => {},
    }
}

proof fn lemma_chosen_asked<T, M>(
    configs: Seq<(String, T)>,
    filters: Seq<(Seq<char>, M)>,
    accepts: spec_fn(M) -> bool,
    name: Seq<char>,
)
    requires
        names_in(filters) == names_asked(configs),
    ensures
        chosen(filters, accepts).contains(name) ==> exists|i: int|
            0 <= i < configs.len() && (#[trigger] configs[i]).0@ == name,
{
    lemma_chosen(filters, accepts);
    if chosen(filters, accepts).contains(name) {
        let i = choose|i: int|
            {
                &&& 0 <= i < filters.len()
                &&& (#[trigger] filters[i]).0 == name
                &&& accepts(filters[i].1)
            };
        assert(names_in(filters).len() == filters.len());
        assert(names_asked(configs).len() == configs.len());
        assert(names_in(filters)[i] == names_asked(configs)[i]);
        assert(configs[i].0@ == name);
    }
}

/// An update on the deshred stream names filters of the request alone, in the order that they have
/// there.
pub proof fn lemma_deshred_filters_are_named_in_order(
    config: SubscribeDeshredRequest,
    limits: FilterLimits,
    names: FilterNames,
    message: MessageDeshredTransaction,
    a: int,
    b: int,
    name: Seq<char>,
)
    requires
        DeshredFilterView::requested(config, limits, names) is Ok,
        0 <= a < b,
    ensures
        ({
            let updates = DeshredFilterView::requested(config, limits, names)->Ok_0.updates(
                Message::DeshredTransaction(message),
            );
            let configs = config.deshred_transactions@;
            &&& updates.len() == 1 && b < updates[0].filters.len() ==> exists|i: int, j: int|
                {
                    &&& 0 <= i < j < configs.len()
                    &&& (#[trigger] configs[i]).0@ == updates[0].filters[a]
                    &&& (#[trigger] configs[j]).0@ == updates[0].filters[b]
                }
            &&& updates.len() == 1 && updates[0].filters.contains(name) ==> exists|i: int|
                0 <= i < configs.len() && (#[trigger] configs[i]).0@ == name
        }),
{
    let filters = DeshredFilterView::requested(config, limits, names)->Ok_0.deshred_transactions;
    let accepts = crate::deshred_transactions::met_by(message);
    lemma_accepted_deshred_names(config, limits, names);
    lemma_chosen_asked(config.deshred_transactions@, filters, accepts, name);
    if b < chosen(filters, accepts).len() {
        lemma_chosen_in_order(config.deshred_transactions@, filters, accepts, a, b);
    }
}

/// Updates are seen as they are: as many, each with all its names and when its message was made.
pub proof fn lemma_updates_are_seen_as_they_are(
    updates: Seq<FilteredUpdate>,
    deshred: Seq<FilteredUpdateDeshred>,
    u: int,
)
    ensures
        updates_of(updates).len() == updates.len(),
        deshred_updates_of(deshred).len() == deshred.len(),
        0 <= u < updates.len() ==> {
            let seen = updates_of(updates)[u];
            &&& seen.created_at == updates[u].created_at
            &&& seen.filters.len() == updates[u].filters@.len()
            &&& forall|n: int|
                0 <= n < updates[u].filters@.len() ==> seen.filters[n] == (
                #[trigger] updates[u].filters@[n])@
            &&& match updates[u].message {
                FilteredUpdateOneof::Account(m) => {
                    &&& seen.message is Account
                    &&& seen.message->account == m.account
                    &&& seen.message->Account_slot == m.slot
                    &&& seen.message->is_startup == m.is_startup
                    &&& seen.message->data_slice == m.data_slice@
                },
                FilteredUpdateOneof::Slot(m) => seen.message == UpdateBody::Slot(m),
                FilteredUpdateOneof::Transaction(m) => {
                    &&& seen.message is Transaction
                    &&& seen.message->Transaction_transaction == m.transaction
                    &&& seen.message->Transaction_slot == m.slot
                },
                FilteredUpdateOneof::TransactionStatus(m) => {
                    &&& seen.message is TransactionStatus
                    &&& seen.message->TransactionStatus_transaction == m.transaction
                    &&& seen.message->TransactionStatus_slot == m.slot
                },
                FilteredUpdateOneof::Block(m) => {
                    &&& seen.message is Block
                    &&& seen.message->meta == m.meta
                    &&& seen.message->transactions == m.transactions@
                    &&& seen.message->updated_account_count == m.updated_account_count
                    &&& seen.message->accounts_data_slice == m.accounts_data_slice@
                    &&& seen.message->accounts == m.accounts@
                    &&& seen.message->entries == m.entries@
                },
                FilteredUpdateOneof::Pong(m) => seen.message is Pong && seen.message->id == m.id,
                FilteredUpdateOneof::BlockMeta(m) => seen.message == UpdateBody::BlockMeta(m),
                FilteredUpdateOneof::Entry(m) => seen.message == UpdateBody::Entry(m),
            }
        },
        0 <= u < deshred.len() ==> {
            let seen = deshred_updates_of(deshred)[u];
            &&& seen.created_at == deshred[u].created_at
            &&& seen.filters.len() == deshred[u].filters@.len()
            &&& forall|n: int|
                0 <= n < deshred[u].filters@.len() ==> seen.filters[n] == (
                #[trigger] deshred[u].filters@[n])@
            &&& match deshred[u].message {
                FilteredUpdateDeshredOneof::DeshredTransaction(m) => {
                    &&& seen.message is DeshredTransaction
                    &&& seen.message->transaction == m.transaction
                    &&& seen.message->slot == m.slot
                },
                FilteredUpdateDeshredOneof::Pong(m) => seen.message is Pong && seen.message->id
                    == m.id,
            }
        },
{
}

} // verus!
