use geyser_filter::accounts_state::{accept_data, FilterAccountsLamports, FilterAccountsState};
use geyser_filter::data_slice::SubscribeRequestAccountsDataSlice;
use geyser_filter::error::FilterError;
use geyser_filter::filter::Filter;
use geyser_filter::limits::{FilterLimits, FilterLimitsCheckError};
use geyser_filter::message::{Message, MessageAccount, MessageAccountInfo, Timestamp};
use geyser_filter::name::{FilterName, FilterNameError, FilterNames};
use geyser_filter::pubkey::{ParsePubkeyError, Pubkey, Signature};
use geyser_filter::pubkey_set::PubkeySet;
use geyser_filter::request::{
    AccountsFilterDataOneof, AccountsFilterLamports, AccountsFilterMemcmpOneof, SubscribeRequest,
    SubscribeRequestFilterAccounts, SubscribeRequestFilterAccountsFilter,
    SubscribeRequestFilterAccountsFilterLamports, SubscribeRequestFilterAccountsFilterMemcmp,
};
use geyser_filter::update::FilteredUpdateOneof;
use std::sync::Arc;

fn pubkey(n: u8) -> Pubkey {
    Pubkey::new_from_array([n; 32])
}

fn text(n: u8) -> String {
    solana_pubkey::Pubkey::new_from_array([n; 32]).to_string()
}

fn names() -> FilterNames {
    FilterNames::new(64)
}

fn account(key: u8, owner: u8, lamports: u64, data: &[u8], with_txn: bool) -> Message {
    Message::Account(MessageAccount {
        account: Arc::new(MessageAccountInfo {
            pubkey: pubkey(key),
            lamports,
            owner: pubkey(owner),
            executable: false,
            rent_epoch: 7,
            data: data.to_vec(),
            write_version: 9,
            txn_signature: if with_txn {
                Some(Signature::new_from_array([3; 64]))
            } else {
                None
            },
        }),
        slot: 11,
        is_startup: false,
        created_at: Timestamp { seconds: 5, nanos: 6 },
    })
}

fn request(filters: Vec<(&str, SubscribeRequestFilterAccounts)>) -> SubscribeRequest {
    let mut request = SubscribeRequest::default();
    for (name, filter) in filters {
        request.accounts.insert(name.to_string(), filter);
    }
    request
}

fn filter_for(filters: Vec<(&str, SubscribeRequestFilterAccounts)>) -> Filter {
    Filter::new(&request(filters), &FilterLimits::default(), &names()).unwrap()
}

fn chosen(filter: &Filter, message: &Message) -> Vec<String> {
    let updates = filter.get_updates(message, None);
    assert!(updates.len() <= 1);
    updates
        .iter()
        .flat_map(|update| update.filters.iter())
        .map(|name| name.as_str().to_string())
        .collect()
}

fn any() -> SubscribeRequestFilterAccounts {
    SubscribeRequestFilterAccounts::default()
}

fn condition(filter: AccountsFilterDataOneof) -> SubscribeRequestFilterAccountsFilter {
    SubscribeRequestFilterAccountsFilter {
        filter: Some(filter),
    }
}

fn memcmp(
    offset: u64,
    data: Option<AccountsFilterMemcmpOneof>,
) -> SubscribeRequestFilterAccountsFilter {
    condition(AccountsFilterDataOneof::Memcmp(
        SubscribeRequestFilterAccountsFilterMemcmp { offset, data },
    ))
}

fn lamports(cmp: AccountsFilterLamports) -> SubscribeRequestFilterAccountsFilter {
    condition(AccountsFilterDataOneof::Lamports(
        SubscribeRequestFilterAccountsFilterLamports { cmp: Some(cmp) },
    ))
}

fn state_error(filters: Vec<SubscribeRequestFilterAccountsFilter>) -> FilterError {
    FilterAccountsState::new(&filters).unwrap_err()
}

fn assert_state_error(filters: Vec<SubscribeRequestFilterAccountsFilter>, text: &str) {
    match state_error(filters) {
        FilterError::CreateAccountState(message) => assert_eq!(message, text),
        other => panic!("{:?}", other),
    }
}

#[test]
fn accounts_are_chosen_by_address_and_owner() {
    let filter = filter_for(vec![
        ("any", any()),
        (
            "account",
            SubscribeRequestFilterAccounts {
                account: vec![text(1), text(2)],
                ..any()
            },
        ),
        (
            "owner",
            SubscribeRequestFilterAccounts {
                owner: vec![text(8)],
                ..any()
            },
        ),
        (
            "both",
            SubscribeRequestFilterAccounts {
                account: vec![text(2)],
                owner: vec![text(8), text(9)],
                ..any()
            },
        ),
    ]);
    let of = |key: u8, owner: u8| chosen(&filter, &account(key, owner, 1, &[], false));
    assert_eq!(of(1, 7), ["any", "account"]);
    assert_eq!(of(2, 8), ["any", "account", "owner", "both"]);
    assert_eq!(of(2, 9), ["any", "account", "both"]);
    assert_eq!(of(3, 8), ["any", "owner"]);
    assert_eq!(of(3, 7), ["any"]);
}

#[test]
fn accounts_are_chosen_by_their_transaction() {
    let filter = filter_for(vec![
        (
            "with",
            SubscribeRequestFilterAccounts {
                nonempty_txn_signature: Some(true),
                ..any()
            },
        ),
        (
            "without",
            SubscribeRequestFilterAccounts {
                nonempty_txn_signature: Some(false),
                ..any()
            },
        ),
        ("either", any()),
    ]);
    assert_eq!(
        chosen(&filter, &account(1, 2, 3, &[], true)),
        ["with", "either"]
    );
    assert_eq!(
        chosen(&filter, &account(1, 2, 3, &[], false)),
        ["without", "either"]
    );
}

#[test]
fn an_account_update_carries_the_account() {
    let mut config = request(vec![("all", any())]);
    config.accounts_data_slice = vec![SubscribeRequestAccountsDataSlice {
        offset: 1,
        length: 2,
    }];
    let filter = Filter::new(&config, &FilterLimits::default(), &names()).unwrap();
    let updates = filter.get_updates(&account(1, 2, 3, &[4, 5, 6], true), None);
    assert_eq!(updates.len(), 1);
    assert_eq!(updates[0].filters, vec![FilterName::new("all")]);
    assert_eq!(
        updates[0].created_at,
        Some(Timestamp { seconds: 5, nanos: 6 })
    );
    match &updates[0].message {
        FilteredUpdateOneof::Account(update) => {
            assert_eq!(update.slot, 11);
            assert!(!update.is_startup);
            assert_eq!(update.account.lamports, 3);
            assert_eq!(update.data_slice.get_slice(&update.account.data), [5, 6]);
        }
        other => panic!("{:?}", other),
    }
}

#[test]
fn a_name_that_is_given_twice_keeps_the_last_filter() {
    let mut config = SubscribeRequest::default();
    let first = SubscribeRequestFilterAccounts {
        account: vec![text(1)],
        ..any()
    };
    let second = SubscribeRequestFilterAccounts {
        account: vec![text(2)],
        ..any()
    };
    assert!(config.accounts.insert("same".to_string(), first).is_none());
    let before = config.accounts.insert("same".to_string(), second).unwrap();
    assert_eq!(before.account, vec![text(1)]);
    assert_eq!(config.accounts.len(), 1);
    let filter = Filter::new(&config, &FilterLimits::default(), &names()).unwrap();
    assert!(chosen(&filter, &account(1, 9, 1, &[], false)).is_empty());
    assert_eq!(chosen(&filter, &account(2, 9, 1, &[], false)), ["same"]);
}

#[test]
fn an_address_that_is_named_twice_counts_once() {
    let filter = filter_for(vec![(
        "twice",
        SubscribeRequestFilterAccounts {
            account: vec![text(1), text(1)],
            ..any()
        },
    )]);
    assert_eq!(chosen(&filter, &account(1, 9, 1, &[], false)), ["twice"]);
    assert!(chosen(&filter, &account(2, 9, 1, &[], false)).is_empty());
}

#[test]
fn bytes_are_found_at_their_offset() {
    let state = FilterAccountsState::new(&[memcmp(
        2,
        Some(AccountsFilterMemcmpOneof::Bytes(vec![7, 8])),
    )])
    .unwrap();
    assert!(!state.is_empty());
    assert!(state.is_match(&[0, 0, 7, 8], 0));
    assert!(state.is_match(&[0, 0, 7, 8, 9], 0));
    assert!(!state.is_match(&[0, 7, 8, 0], 0));
    assert!(!state.is_match(&[0, 0, 7], 0));
    assert!(!state.is_match(&[], 0));
}

#[test]
fn an_offset_past_all_memory_finds_nothing() {
    let state = FilterAccountsState::new(&[memcmp(
        u64::MAX,
        Some(AccountsFilterMemcmpOneof::Bytes(vec![1])),
    )])
    .unwrap();
    assert!(!state.is_match(&[1, 1, 1], 0));
}

#[test]
fn texts_are_decoded() {
    // base58 of 0x61 0x62 0x63 and base64 of the same bytes
    let base58 = AccountsFilterMemcmpOneof::Base58("ZiCa".to_string());
    let base64 = AccountsFilterMemcmpOneof::Base64("YWJj".to_string());
    for data in [base58, base64] {
        let state = FilterAccountsState::new(&[memcmp(1, Some(data))]).unwrap();
        assert!(state.is_match(b"xabcx", 0));
        assert!(!state.is_match(b"abcxx", 0));
    }
}

#[test]
fn texts_that_are_too_long_or_wrong_are_refused() {
    let base58 = |text: String| vec![memcmp(0, Some(AccountsFilterMemcmpOneof::Base58(text)))];
    let base64 = |text: String| vec![memcmp(0, Some(AccountsFilterMemcmpOneof::Base64(text)))];
    assert_state_error(base58("1".repeat(176)), "data too large");
    assert_state_error(base58("0".to_string()), "invalid base58");
    assert_state_error(base64("A".repeat(173)), "data too large");
    assert_state_error(base64("*".to_string()), "invalid base64");
    // short enough as a text, too long as bytes
    assert_state_error(base58("1".repeat(129)), "data too large");
    assert!(FilterAccountsState::new(&base58("1".repeat(128))).is_ok());
    assert_state_error(base64("A".repeat(172)), "data too large");
    assert!(FilterAccountsState::new(&base64("A".repeat(168))).is_ok());
}

#[test]
fn bytes_that_are_too_many_are_refused() {
    let bytes = |n: usize| vec![memcmp(0, Some(AccountsFilterMemcmpOneof::Bytes(vec![0; n])))];
    assert!(FilterAccountsState::new(&bytes(128)).is_ok());
    assert_state_error(bytes(129), "data too large");
}

#[test]
fn decoded_data_is_bounded() {
    assert_eq!(accept_data(Some(vec![1, 2]), "bad").unwrap(), vec![1, 2]);
    assert!(matches!(
        accept_data(None, "bad"),
        Err(FilterError::CreateAccountState("bad"))
    ));
    assert!(matches!(
        accept_data(Some(vec![0; 129]), "bad"),
        Err(FilterError::CreateAccountState("data too large"))
    ));
}

#[test]
fn undefined_conditions_are_refused() {
    assert_state_error(vec![memcmp(0, None)], "data for memcmp should be defined");
    assert_state_error(
        vec![
            condition(AccountsFilterDataOneof::Datasize(1)),
            condition(AccountsFilterDataOneof::Datasize(1)),
        ],
        "datasize used more than once",
    );
    assert_state_error(
        vec![condition(AccountsFilterDataOneof::TokenAccountState(false))],
        "token_account_state only allowed to be true",
    );
    assert_state_error(
        vec![condition(AccountsFilterDataOneof::Lamports(
            SubscribeRequestFilterAccountsFilterLamports { cmp: None },
        ))],
        "cmp for lamports should be defined",
    );
    assert_state_error(
        vec![SubscribeRequestFilterAccountsFilter { filter: None }],
        "filter should be defined",
    );
}

#[test]
fn more_than_four_conditions_are_refused() {
    let conditions = |n: usize| -> Vec<SubscribeRequestFilterAccountsFilter> {
        (0..n).map(|_| lamports(AccountsFilterLamports::Gt(0))).collect()
    };
    assert!(FilterAccountsState::new(&conditions(4)).is_ok());
    assert!(matches!(
        state_error(conditions(5)),
        FilterError::CreateAccountStateMaxFilters { max: 4 }
    ));
}

#[test]
fn no_condition_matches_everything() {
    let state = FilterAccountsState::new(&[]).unwrap();
    assert!(state.is_empty());
    assert!(state.is_match(&[], 0));
    assert!(state.is_match(&[1, 2, 3], u64::MAX));
}

#[test]
fn the_size_must_be_exact() {
    let state =
        FilterAccountsState::new(&[condition(AccountsFilterDataOneof::Datasize(3))]).unwrap();
    assert!(state.is_match(&[1, 2, 3], 0));
    assert!(!state.is_match(&[1, 2], 0));
    assert!(!state.is_match(&[1, 2, 3, 4], 0));
}

#[test]
fn token_accounts_are_recognized() {
    let state =
        FilterAccountsState::new(&[condition(AccountsFilterDataOneof::TokenAccountState(true))])
            .unwrap();
    let mut plain = vec![0u8; 165];
    assert!(!state.is_match(&plain, 0));
    plain[108] = 1;
    assert!(state.is_match(&plain, 0));
    assert!(!state.is_match(&plain[..164], 0));
    let mut extended = vec![0u8; 170];
    extended[108] = 1;
    assert!(!state.is_match(&extended, 0));
    extended[165] = 2;
    assert!(state.is_match(&extended, 0));
    let mut multisig = vec![0u8; 355];
    multisig[108] = 1;
    multisig[165] = 2;
    assert!(!state.is_match(&multisig, 0));
}

#[test]
fn lamports_are_compared() {
    let matches = |cmp: AccountsFilterLamports, value: u64| {
        FilterAccountsState::new(&[lamports(cmp)]).unwrap().is_match(&[], value)
    };
    assert!(matches(AccountsFilterLamports::Eq(5), 5));
    assert!(!matches(AccountsFilterLamports::Eq(5), 6));
    assert!(matches(AccountsFilterLamports::Ne(5), 6));
    assert!(!matches(AccountsFilterLamports::Ne(5), 5));
    assert!(matches(AccountsFilterLamports::Lt(5), 4));
    assert!(!matches(AccountsFilterLamports::Lt(5), 5));
    assert!(matches(AccountsFilterLamports::Gt(5), 6));
    assert!(!matches(AccountsFilterLamports::Gt(5), 5));
    assert_eq!(
        FilterAccountsLamports::from(&AccountsFilterLamports::Lt(9)),
        FilterAccountsLamports::Lt(9)
    );
}

#[test]
fn every_condition_must_hold() {
    let state = FilterAccountsState::new(&[
        condition(AccountsFilterDataOneof::Datasize(2)),
        lamports(AccountsFilterLamports::Gt(10)),
        lamports(AccountsFilterLamports::Lt(20)),
        memcmp(0, Some(AccountsFilterMemcmpOneof::Bytes(vec![1]))),
    ])
    .unwrap();
    assert!(state.is_match(&[1, 2], 15));
    assert!(!state.is_match(&[1, 2, 3], 15));
    assert!(!state.is_match(&[1, 2], 10));
    assert!(!state.is_match(&[1, 2], 20));
    assert!(!state.is_match(&[2, 2], 15));
    let filter = filter_for(vec![(
        "state",
        SubscribeRequestFilterAccounts {
            filters: vec![condition(AccountsFilterDataOneof::Datasize(2))],
            ..any()
        },
    )]);
    assert_eq!(chosen(&filter, &account(1, 2, 3, &[0, 0], false)), ["state"]);
    assert!(chosen(&filter, &account(1, 2, 3, &[0], false)).is_empty());
}

#[test]
fn accounts_beyond_the_limits_are_refused() {
    let one = || {
        request(vec![(
            "one",
            SubscribeRequestFilterAccounts {
                account: vec![text(1), text(2)],
                owner: vec![text(3), text(4)],
                ..any()
            },
        )])
    };
    let refused = |limits: &FilterLimits| match Filter::new(&one(), limits, &names()) {
        Err(FilterError::LimitsCheck(e)) => e,
        other => panic!("{:?}", other),
    };

    let mut limits = FilterLimits::default();
    limits.accounts.max = 0;
    assert_eq!(refused(&limits), FilterLimitsCheckError::Max { max: 0 });

    let mut limits = FilterLimits::default();
    limits.accounts.account_max = 1;
    assert_eq!(refused(&limits), FilterLimitsCheckError::MaxPubkey { max: 1 });

    let mut limits = FilterLimits::default();
    limits.accounts.owner_max = 1;
    assert_eq!(refused(&limits), FilterLimitsCheckError::MaxPubkey { max: 1 });

    let mut limits = FilterLimits::default();
    limits.accounts.account_reject = PubkeySet::from_slice(&[pubkey(2)]);
    assert_eq!(
        refused(&limits),
        FilterLimitsCheckError::PubkeyReject { pubkey: pubkey(2) }
    );

    let mut limits = FilterLimits::default();
    limits.accounts.owner_reject = PubkeySet::from_slice(&[pubkey(3), pubkey(2)]);
    assert_eq!(
        refused(&limits),
        FilterLimitsCheckError::PubkeyReject { pubkey: pubkey(3) }
    );

    let mut limits = FilterLimits::default();
    limits.accounts.any = false;
    assert!(Filter::new(&one(), &limits, &names()).is_ok());
    let config = request(vec![("any", any())]);
    assert!(matches!(
        Filter::new(&config, &limits, &names()),
        Err(FilterError::LimitsCheck(FilterLimitsCheckError::Any))
    ));
}

#[test]
fn texts_that_are_no_address_are_refused() {
    let refused = |text: &str| {
        let config = request(vec![(
            "bad",
            SubscribeRequestFilterAccounts {
                account: vec![text.to_string()],
                ..any()
            },
        )]);
        match Filter::new(&config, &FilterLimits::default(), &names()) {
            Err(FilterError::InvalidPubkey(e)) => e,
            other => panic!("{:?}", other),
        }
    };
    assert_eq!(refused(&"1".repeat(45)), ParsePubkeyError::WrongSize);
    assert_eq!(refused("111"), ParsePubkeyError::WrongSize);
    assert_eq!(refused(&"0".repeat(44)), ParsePubkeyError::Invalid);
}

#[test]
fn names_that_are_too_long_are_refused() {
    let config = request(vec![("123456", any())]);
    let limits = FilterLimits::default();
    assert!(Filter::new(&config, &limits, &FilterNames::new(6)).is_ok());
    assert!(matches!(
        Filter::new(&config, &limits, &FilterNames::new(5)),
        Err(FilterError::Name(FilterNameError::Oversized { limit: 5, size: 6 }))
    ));
    // the size of a name is its size in bytes
    let config = request(vec![("\u{e9}\u{e9}\u{e9}", any())]);
    assert!(matches!(
        Filter::new(&config, &limits, &FilterNames::new(5)),
        Err(FilterError::Name(FilterNameError::Oversized { limit: 5, size: 6 }))
    ));
}

#[test]
fn sets_of_addresses_hold_each_once() {
    let mut near = [5u8; 32];
    near[31] = 6;
    let close = Pubkey::new_from_array(near);
    let mut set = PubkeySet::new();
    assert!(set.is_empty());
    assert!(set.insert(pubkey(5)));
    assert!(!set.insert(pubkey(5)));
    assert!(!set.contains(&close));
    assert!(set.insert(close));
    assert!(set.contains(&close));
    assert_eq!(set.len(), 2);
    assert_eq!(set.to_vec(), vec![pubkey(5), close]);
    let other = PubkeySet::from_slice(&[close, pubkey(7)]);
    assert!(set.intersects(&other));
    assert!(!set.is_subset(&other));
    assert!(PubkeySet::from_slice(&[close]).is_subset(&set));
    assert!(!set.contains_any(&[pubkey(1), pubkey(7)]));
    assert!(set.clone().contains_any(&[pubkey(1), close]));
}
