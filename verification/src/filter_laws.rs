//! What holds of every filter that was accepted, and of every update.

use crate::data_slice::lemma_accepted_ranges;
use crate::decode::{decoded_pubkey_set, decoded_pubkeys, lemma_decoded_pubkeys};
use crate::deshred_filter::DeshredFilterView;
use crate::entries::each_name;
use crate::error::{collected, lemma_collected, FilterError, FilterResult};
use crate::filter::FilterView;
use crate::limits::{
    FilterLimits, FilterLimitsAccounts, FilterLimitsBlocks, FilterLimitsDeshredTransactions,
    FilterLimitsTransactions,
};
use crate::listing::{distinct_names, lemma_chosen_once};
use crate::message::{CommitmentLevel, Message, MessageTransaction, Timestamp};
use crate::name::{byte_len, FilterNames};
use crate::named::unique_names;
use crate::pubkey::Pubkey;
use crate::request::{
    SubscribeDeshredRequest, SubscribeRequest, SubscribeRequestFilterAccounts,
    SubscribeRequestFilterBlocks, SubscribeRequestFilterDeshredTransactions,
    SubscribeRequestFilterTransactions,
};
use crate::update::UpdateBody;
use vstd::prelude::*;

verus! {

/// The names under which a request asks for filters.
pub open spec fn names_asked<T>(configs: Seq<(String, T)>) -> Seq<Seq<char>> {
    configs.map_values(|c: (String, T)| c.0@)
}

/// The names of the filters of a list.
pub open spec fn names_in<M>(filters: Seq<(Seq<char>, M)>) -> Seq<Seq<char>> {
    filters.map_values(|f: (Seq<char>, M)| f.0)
}

/// Every name of a list is as short as it must be.
pub open spec fn names_short(list: Seq<Seq<char>>, names: FilterNames) -> bool {
    forall|i: int| 0 <= i < list.len() ==> byte_len(#[trigger] list[i]) <= names.name_size_limit
}

/// Where every accepted filter keeps its name, a list of accepted filters has the names asked for.
proof fn lemma_names_kept<T, M>(
    configs: Seq<(String, T)>,
    results: Seq<FilterResult<(Seq<char>, M)>>,
    names: FilterNames,
)
    requires
        results.len() == configs.len(),
        collected(results) is Ok,
        forall|i: int|
            0 <= i < results.len() && (#[trigger] results[i]) is Ok ==> {
                &&& results[i]->Ok_0.0 == configs[i].0@
                &&& names.checked(configs[i].0@) is Ok
            },
    ensures
        names_in(collected(results)->Ok_0) == names_asked(configs),
        names_short(names_asked(configs), names),
{
    lemma_collected(results);
    let filters = collected(results)->Ok_0;
    assert forall|i: int| 0 <= i < configs.len() implies names_in(filters)[i] == names_asked(
        configs,
    )[i] && byte_len(#[trigger] names_asked(configs)[i]) <= names.name_size_limit by {
        assert(results[i] == Ok::<(Seq<char>, M), FilterError>(filters[i]));
    }
    assert(names_in(filters) =~= names_asked(configs));
}

proof fn lemma_plain_names_kept<T>(configs: Seq<(String, T)>, names: FilterNames)
    requires
        collected(each_name(configs, names)) is Ok,
    ensures
        collected(each_name(configs, names))->Ok_0 == names_asked(configs),
        names_short(names_asked(configs), names),
{
    let results = each_name(configs, names);
    lemma_collected(results);
    let kept = collected(results)->Ok_0;
    assert forall|i: int| 0 <= i < configs.len() implies kept[i] == names_asked(configs)[i]
        && byte_len(#[trigger] names_asked(configs)[i]) <= names.name_size_limit by {
        assert(results[i] == Ok::<Seq<char>, FilterError>(kept[i]));
    }
    assert(kept =~= names_asked(configs));
}

/// A filter has the names that a request asks for: of each kind as many, in the same order.
pub open spec fn has_names_asked(filter: FilterView, config: SubscribeRequest) -> bool {
    &&& names_in(filter.accounts) == names_asked(config.accounts@)
    &&& names_in(filter.slots) == names_asked(config.slots@)
    &&& names_in(filter.transactions) == names_asked(config.transactions@)
    &&& names_in(filter.transactions_status) == names_asked(config.transactions_status@)
    &&& filter.entries == names_asked(config.entry@)
    &&& names_in(filter.blocks) == names_asked(config.blocks@)
    &&& filter.blocks_meta == names_asked(config.blocks_meta@)
}

/// Every name of a request is as short as it must be.
pub open spec fn all_names_short(config: SubscribeRequest, names: FilterNames) -> bool {
    &&& names_short(names_asked(config.accounts@), names)
    &&& names_short(names_asked(config.slots@), names)
    &&& names_short(names_asked(config.transactions@), names)
    &&& names_short(names_asked(config.transactions_status@), names)
    &&& names_short(names_asked(config.entry@), names)
    &&& names_short(names_asked(config.blocks@), names)
    &&& names_short(names_asked(config.blocks_meta@), names)
}

proof fn lemma_unsliced_names(config: SubscribeRequest, limits: FilterLimits, names: FilterNames)
    requires
        FilterView::requested_unsliced(config, limits, names) is Ok,
    ensures
        has_names_asked(FilterView::requested_unsliced(config, limits, names)->Ok_0, config),
        all_names_short(config, names),
{
    lemma_names_kept(
        config.accounts@,
        crate::accounts::each_requested(config.accounts@, limits.accounts, names),
        names,
    );
    lemma_names_kept(
        config.slots@,
        crate::slots::each_requested(config.slots@, names),
        names,
    );
    lemma_names_kept(
        config.transactions@,
        crate::transactions::each_requested(config.transactions@, limits.transactions, names),
        names,
    );
    lemma_names_kept(
        config.transactions_status@,
        crate::transactions::each_requested(
            config.transactions_status@,
            limits.transactions_status,
            names,
        ),
        names,
    );
    lemma_plain_names_kept(config.entry@, names);
    lemma_names_kept(
        config.blocks@,
        crate::blocks::each_requested(config.blocks@, limits.blocks, names),
        names,
    );
    lemma_plain_names_kept(config.blocks_meta@, names);
}

/// An accepted request gets the filters that it asks for: as many of each kind, under the same
/// names, in the same order. No name is longer than allowed.
pub proof fn lemma_accepted_names(
    config: SubscribeRequest,
    limits: FilterLimits,
    names: FilterNames,
)
    requires
        FilterView::requested(config, limits, names) is Ok,
    ensures
        has_names_asked(FilterView::requested(config, limits, names)->Ok_0, config),
        all_names_short(config, names),
{
    lemma_unsliced_names(config, limits, names);
}

/// An accepted request has no more filters of any kind than the limits allow, and no more data
/// slices.
pub proof fn lemma_accepted_counts(
    config: SubscribeRequest,
    limits: FilterLimits,
    names: FilterNames,
)
    requires
        FilterView::requested(config, limits, names) is Ok,
    ensures
        ({
            let filter = FilterView::requested(config, limits, names)->Ok_0;
            &&& filter.accounts.len() == config.accounts@.len() <= limits.accounts.max
            &&& filter.slots.len() == config.slots@.len() <= limits.slots.max
            &&& filter.transactions.len() == config.transactions@.len() <= limits.transactions.max
            &&& filter.transactions_status.len() == config.transactions_status@.len()
                <= limits.transactions_status.max
            &&& filter.entries.len() == config.entry@.len() <= limits.entries.max
            &&& filter.blocks.len() == config.blocks@.len() <= limits.blocks.max
            &&& filter.blocks_meta.len() == config.blocks_meta@.len() <= limits.blocks_meta.max
            &&& filter.accounts_data_slice.len() == config.accounts_data_slice@.len()
                <= limits.accounts.data_slice_max
        }),
{
    let filter = FilterView::requested(config, limits, names)->Ok_0;
    lemma_accepted_names(config, limits, names);
    assert(names_in(filter.accounts).len() == names_asked(config.accounts@).len());
    assert(names_in(filter.slots).len() == names_asked(config.slots@).len());
    assert(names_in(filter.transactions).len() == names_asked(config.transactions@).len());
    assert(names_in(filter.transactions_status).len() == names_asked(
        config.transactions_status@,
    ).len());
    assert(names_in(filter.blocks).len() == names_asked(config.blocks@).len());
    lemma_accepted_ranges(
        config.accounts_data_slice@,
        limits.accounts.data_slice_max,
        Seq::empty(),
    );
}

/// No two filters of one kind have the same name.
pub open spec fn names_distinct(filter: FilterView) -> bool {
    &&& distinct_names(filter.accounts)
    &&& distinct_names(filter.slots)
    &&& distinct_names(filter.transactions)
    &&& distinct_names(filter.transactions_status)
    &&& filter.entries.no_duplicates()
    &&& distinct_names(filter.blocks)
    &&& filter.blocks_meta.no_duplicates()
}

proof fn lemma_distinct<T, M>(configs: Seq<(String, T)>, filters: Seq<(Seq<char>, M)>)
    requires
        unique_names(configs),
        names_in(filters) == names_asked(configs),
    ensures
        distinct_names(filters),
{
    assert(names_in(filters).len() == filters.len());
    assert(names_asked(configs).len() == configs.len());
    assert forall|i: int, j: int| 0 <= i < j < filters.len() implies (#[trigger] filters[i]).0 != (
    #[trigger] filters[j]).0 by {
        assert(names_in(filters)[i] == names_asked(configs)[i]);
        assert(names_in(filters)[j] == names_asked(configs)[j]);
        assert(configs[i].0@ != configs[j].0@);
    }
}

proof fn lemma_plain_distinct<T>(configs: Seq<(String, T)>)
    requires
        unique_names(configs),
    ensures
        names_asked(configs).no_duplicates(),
{
    assert forall|i: int, j: int|
        0 <= i < configs.len() && 0 <= j < configs.len() && i != j implies names_asked(configs)[i]
        != names_asked(configs)[j] by {
        if i < j {
            assert(configs[i].0@ != configs[j].0@);
        } else {
            assert(configs[j].0@ != configs[i].0@);
        }
    }
}

/// The names of a request are distinct for each kind.
pub open spec fn asks_for_distinct_names(config: SubscribeRequest) -> bool {
    &&& unique_names(config.accounts@)
    &&& unique_names(config.slots@)
    &&& unique_names(config.transactions@)
    &&& unique_names(config.transactions_status@)
    &&& unique_names(config.entry@)
    &&& unique_names(config.blocks@)
    &&& unique_names(config.blocks_meta@)
}

/// A filter has distinct names where those asked for are.
proof fn lemma_asked_names_are_distinct(config: SubscribeRequest, filter: FilterView)
    requires
        has_names_asked(filter, config),
        asks_for_distinct_names(config),
    ensures
        names_distinct(filter),
{
    lemma_distinct(config.accounts@, filter.accounts);
    lemma_distinct(config.slots@, filter.slots);
    lemma_distinct(config.transactions@, filter.transactions);
    lemma_distinct(config.transactions_status@, filter.transactions_status);
    lemma_plain_distinct(config.entry@);
    lemma_distinct(config.blocks@, filter.blocks);
    lemma_plain_distinct(config.blocks_meta@);
}

/// A request whose names are distinct gets filters with distinct names, whatever becomes of its
/// data slices.
pub proof fn lemma_unsliced_names_are_distinct(
    config: SubscribeRequest,
    limits: FilterLimits,
    names: FilterNames,
)
    requires
        FilterView::requested_unsliced(config, limits, names) is Ok,
        asks_for_distinct_names(config),
    ensures
        names_distinct(FilterView::requested_unsliced(config, limits, names)->Ok_0),
{
    lemma_unsliced_names(config, limits, names);
    lemma_asked_names_are_distinct(
        config,
        FilterView::requested_unsliced(config, limits, names)->Ok_0,
    );
}

/// An accepted request, whose names are distinct for each kind, gets filters with distinct names.
pub proof fn lemma_accepted_names_are_distinct(
    config: SubscribeRequest,
    limits: FilterLimits,
    names: FilterNames,
)
    requires
        FilterView::requested(config, limits, names) is Ok,
        asks_for_distinct_names(config),
    ensures
        names_distinct(FilterView::requested(config, limits, names)->Ok_0),
{
    lemma_accepted_names(config, limits, names);
    lemma_asked_names_are_distinct(
        config,
        FilterView::requested(config, limits, names)->Ok_0,
    );
}

/// An accepted request for the deshred stream gets the filters that it asks for, under the same
/// names, in the same order, and not more than the limits allow. No name is longer than allowed;
/// where the names asked for are distinct, so are those of the filters.
pub proof fn lemma_accepted_deshred_names(
    config: SubscribeDeshredRequest,
    limits: FilterLimits,
    names: FilterNames,
)
    requires
        DeshredFilterView::requested(config, limits, names) is Ok,
    ensures
        ({
            let filters = DeshredFilterView::requested(
                config,
                limits,
                names,
            )->Ok_0.deshred_transactions;
            &&& names_in(filters) == names_asked(config.deshred_transactions@)
            &&& filters.len() == config.deshred_transactions@.len()
                <= limits.deshred_transactions.max
            &&& unique_names(config.deshred_transactions@) ==> distinct_names(filters)
        }),
        names_short(names_asked(config.deshred_transactions@), names),
{
    let configs = config.deshred_transactions@;
    let filters = DeshredFilterView::requested(config, limits, names)->Ok_0.deshred_transactions;
    lemma_names_kept(
        configs,
        crate::deshred_transactions::each_requested(configs, limits.deshred_transactions, names),
        names,
    );
    assert(names_in(filters).len() == filters.len());
    assert(names_asked(configs).len() == configs.len());
    if unique_names(configs) {
        lemma_distinct(configs, filters);
    }
}

/// When the message was made.
pub open spec fn made_at(message: Message) -> Timestamp {
    match message {
        Message::Slot(message) => message.created_at,
        Message::Account(message) => message.created_at,
        Message::Transaction(message) => message.created_at,
        Message::DeshredTransaction(message) => message.created_at,
        Message::Entry(message) => message.created_at,
        Message::BlockMeta(message) => message.created_at,
        Message::Block(message) => message.created_at,
    }
}

/// Every update names a filter and was made when the message was. Where the names of the filters
/// are distinct, it names none twice.
pub proof fn lemma_every_update_names_filters(
    filter: FilterView,
    message: Message,
    commitment: Option<CommitmentLevel>,
)
    ensures
        forall|i: int|
            0 <= i < filter.updates(message, commitment).len() ==> {
                let update = #[trigger] filter.updates(message, commitment)[i];
                &&& update.filters.len() > 0
                &&& update.created_at == Some(made_at(message))
                &&& names_distinct(filter) ==> update.filters.no_duplicates()
            },
{
    if names_distinct(filter) {
        match message {
            Message::Slot(m) => lemma_chosen_once(
                filter.slots,
                crate::slots::met_by(m, commitment),
            ),
            Message::Account(m) => lemma_chosen_once(filter.accounts, crate::accounts::met_by(m)),
            Message::Transaction(m) => {
                lemma_chosen_once(filter.transactions, crate::transactions::met_by(m));
                lemma_chosen_once(filter.transactions_status, crate::transactions::met_by(m));
            },
            _ => {},
        }
    }
}

/// A message gives at most one update of each kind, but a block gives one for each filter.
pub proof fn lemma_update_counts(
    filter: FilterView,
    message: Message,
    commitment: Option<CommitmentLevel>,
)
    ensures
        match message {
            Message::Block(_) => filter.updates(message, commitment).len() == filter.blocks.len(),
            Message::Transaction(_) => filter.updates(message, commitment).len() <= 2,
            Message::DeshredTransaction(_) => filter.updates(message, commitment).len() == 0,
            _ => filter.updates(message, commitment).len() <= 1,
        },
{
}

/// An update is about the message that it was made for.
pub open spec fn is_about(body: UpdateBody, message: Message) -> bool {
    match (body, message) {
        (UpdateBody::Account { account, slot, is_startup, .. }, Message::Account(m)) => {
            account == m.account && slot == m.slot && is_startup == m.is_startup
        },
        (UpdateBody::Slot(slot), Message::Slot(m)) => slot == m,
        (UpdateBody::Transaction { transaction, slot }, Message::Transaction(m)) => {
            transaction == m.transaction && slot == m.slot
        },
        (UpdateBody::TransactionStatus { transaction, slot }, Message::Transaction(m)) => {
            transaction == m.transaction && slot == m.slot
        },
        (UpdateBody::Block { meta, updated_account_count, .. }, Message::Block(m)) => {
            meta == m.meta && updated_account_count == m.updated_account_count
        },
        (UpdateBody::BlockMeta(meta), Message::BlockMeta(m)) => meta == m,
        (UpdateBody::Entry(entry), Message::Entry(m)) => entry == m,
        _ => false,
    }
}

/// Every update is about the message that it was made for.
pub proof fn lemma_updates_are_about_their_message(
    filter: FilterView,
    message: Message,
    commitment: Option<CommitmentLevel>,
)
    ensures
        forall|i: int|
            0 <= i < filter.updates(message, commitment).len() ==> is_about(
                (#[trigger] filter.updates(message, commitment)[i]).message,
                message,
            ),
{
}

/// Where the same filters are asked for on transactions and on their statuses, a transaction
/// gives both updates or none. Both name the same filters; the whole transaction comes first.
pub proof fn lemma_whole_transaction_comes_first(
    filter: FilterView,
    message: MessageTransaction,
    commitment: Option<CommitmentLevel>,
)
    requires
        filter.transactions == filter.transactions_status,
    ensures
        ({
            let updates = filter.updates(Message::Transaction(message), commitment);
            ||| updates.len() == 0
            ||| {
                &&& updates.len() == 2
                &&& updates[0].message is Transaction
                &&& updates[1].message is TransactionStatus
                &&& updates[0].filters == updates[1].filters
            }
        }),
{
}

/// The two streams are separate: a received transaction gives no update on the main stream, and
/// every other message gives none on the deshred stream.
pub proof fn lemma_streams_are_separate(
    filter: FilterView,
    deshred: DeshredFilterView,
    message: Message,
    commitment: Option<CommitmentLevel>,
)
    ensures
        filter.updates(message, commitment).len() == 0 || deshred.updates(message).len() == 0,
        message is DeshredTransaction ==> filter.updates(message, commitment).len() == 0,
        !(message is DeshredTransaction) ==> deshred.updates(message).len() == 0,
{
}

/// A subscriber that asked for nothing gets nothing.
pub proof fn lemma_nothing_asked_nothing_given(
    message: Message,
    commitment: Option<CommitmentLevel>,
)
    ensures
        FilterView::none().updates(message, commitment).len() == 0,
        DeshredFilterView::none().updates(message).len() == 0,
        FilterView::none().account_rules().len() == 0,
        FilterView::none().transaction_rules().len() == 0,
{
    let filter = FilterView::none();
    match message {
        Message::Slot(m) => crate::listing::lemma_chosen_none(
            filter.slots,
            crate::slots::met_by(m, commitment),
        ),
        Message::Account(m) => crate::listing::lemma_chosen_none(
            filter.accounts,
            crate::accounts::met_by(m),
        ),
        Message::Transaction(m) => {
            crate::listing::lemma_chosen_none(filter.transactions, crate::transactions::met_by(m));
        },
        Message::DeshredTransaction(m) => crate::listing::lemma_chosen_none(
            DeshredFilterView::none().deshred_transactions,
            crate::deshred_transactions::met_by(m),
        ),
        _ => {},
    }
}

/// A set of addresses that was read from texts holds none that is rejected, is no larger than the
/// list of texts, and is empty only where that is.
pub proof fn lemma_decoded_set(texts: Seq<String>, reject: Set<Pubkey>)
    requires
        decoded_pubkey_set(texts, reject) is Ok,
    ensures
        decoded_pubkey_set(texts, reject)->Ok_0.disjoint(reject),
        decoded_pubkey_set(texts, reject)->Ok_0.len() <= texts.len(),
        texts.len() > 0 <==> decoded_pubkey_set(texts, reject)->Ok_0 != Set::<Pubkey>::empty(),
{
    lemma_decoded_pubkeys(texts, reject);
    let keys = decoded_pubkeys(texts, reject)->Ok_0;
    keys.lemma_cardinality_of_set();
    if keys.len() > 0 {
        assert(keys.to_set().contains(keys[0]));
    } else {
        assert(keys.to_set() =~= Set::<Pubkey>::empty());
    }
}

/// An accepted filter on accounts names no account and no owner that is rejected, not more of
/// them than allowed, and at least one where filters on everything are not allowed.
pub proof fn lemma_accepted_accounts(
    name: Seq<char>,
    filter: SubscribeRequestFilterAccounts,
    limits: FilterLimitsAccounts,
    names: FilterNames,
)
    requires
        crate::accounts::requested_filter(name, filter, limits, names) is Ok,
    ensures
        ({
            let demand = crate::accounts::requested_filter(name, filter, limits, names)->Ok_0.1;
            &&& demand.account.disjoint(limits.account_reject@)
            &&& demand.owner.disjoint(limits.owner_reject@)
            &&& demand.account.len() <= limits.account_max
            &&& demand.owner.len() <= limits.owner_max
            &&& !limits.any ==> demand.account != Set::<Pubkey>::empty() || demand.owner != Set::<
                Pubkey,
            >::empty()
        }),
{
    lemma_decoded_set(filter.account@, limits.account_reject@);
    lemma_decoded_set(filter.owner@, limits.owner_reject@);
}

/// An accepted filter on transactions includes no account that is rejected, names not more
/// accounts than allowed, and demands something where filters on everything are not allowed.
pub proof fn lemma_accepted_transactions(
    name: Seq<char>,
    filter: SubscribeRequestFilterTransactions,
    limits: FilterLimitsTransactions,
    names: FilterNames,
)
    requires
        crate::transactions::requested_filter(name, filter, limits, names) is Ok,
    ensures
        ({
            let demand = crate::transactions::requested_filter(name, filter, limits, names)->Ok_0.1;
            &&& demand.accounts.included.disjoint(limits.account_include_reject@)
            &&& demand.accounts.included.len() <= limits.account_include_max
            &&& demand.accounts.excluded.len() <= limits.account_exclude_max
            &&& demand.accounts.required.len() <= limits.account_required_max
            &&& !limits.any ==> demand.vote is Some || demand.failed is Some || demand.accounts
                != crate::demand::AccountsDemand::none()
        }),
{
    lemma_decoded_set(filter.account_include@, limits.account_include_reject@);
    lemma_decoded_set(filter.account_exclude@, Set::empty());
    lemma_decoded_set(filter.account_required@, Set::empty());
}

/// An accepted filter on received transactions includes no account that is rejected, names not
/// more accounts than allowed, and demands something where filters on everything are not allowed.
pub proof fn lemma_accepted_deshred_transactions(
    name: Seq<char>,
    filter: SubscribeRequestFilterDeshredTransactions,
    limits: FilterLimitsDeshredTransactions,
    names: FilterNames,
)
    requires
        crate::deshred_transactions::requested_filter(name, filter, limits, names) is Ok,
    ensures
        ({
            let demand = crate::deshred_transactions::requested_filter(
                name,
                filter,
                limits,
                names,
            )->Ok_0.1;
            &&& demand.accounts.included.disjoint(limits.account_include_reject@)
            &&& demand.accounts.included.len() <= limits.account_include_max
            &&& demand.accounts.excluded.len() <= limits.account_exclude_max
            &&& demand.accounts.required.len() <= limits.account_required_max
            &&& !limits.any ==> demand.vote is Some || demand.accounts
                != crate::demand::AccountsDemand::none()
        }),
{
    lemma_decoded_set(filter.account_include@, limits.account_include_reject@);
    lemma_decoded_set(filter.account_exclude@, Set::empty());
    lemma_decoded_set(filter.account_required@, Set::empty());
}

/// An accepted filter on blocks names no account that is rejected and not more than allowed, one
/// at least where it must, and hands on only such parts of blocks as are allowed.
pub proof fn lemma_accepted_blocks(
    name: Seq<char>,
    filter: SubscribeRequestFilterBlocks,
    limits: FilterLimitsBlocks,
    names: FilterNames,
)
    requires
        crate::blocks::requested_filter(name, filter, limits, names) is Ok,
    ensures
        ({
            let demand = crate::blocks::requested_filter(name, filter, limits, names)->Ok_0.1;
            &&& demand.account_include.disjoint(limits.account_include_reject@)
            &&& demand.account_include.len() <= limits.account_include_max
            &&& !limits.account_include_any ==> demand.account_include != Set::<Pubkey>::empty()
            &&& !limits.include_transactions ==> forall|transactions| #[trigger]
                demand.transactions(transactions).len() == 0
            &&& !limits.include_accounts ==> {
                &&& forall|accounts| #[trigger] demand.accounts(accounts).len() == 0
                &&& forall|entries| #[trigger] demand.entries(entries).len() == 0
            }
        }),
{
    lemma_decoded_set(filter.account_include@, limits.account_include_reject@);
}

} // verus!
