use geyser_filter::account_gate::{AccountFilterGate, AccountFilterRule, ReplicaAccountInfo};
use geyser_filter::account_keys::TxAccountKeysView;
use geyser_filter::accounts::FilterAccounts;
use geyser_filter::deshred_filter::DeshredFilter;
use geyser_filter::deshred_gate::{
    DeshredTransactionFilterGate, DeshredTransactionFilterRule, LoadedAddresses,
    ReplicaDeshredTransactionInfo,
};
use geyser_filter::error::FilterError;
use geyser_filter::filter::Filter;
use geyser_filter::limits::{FilterLimits, FilterLimitsCheckError};
use geyser_filter::message::{
    Message, MessageAccount, MessageAccountInfo, MessageDeshredTransaction,
    MessageDeshredTransactionInfo, MessageTransaction, MessageTransactionInfo, Timestamp,
    Transaction, TransactionStatusMeta,
};
use geyser_filter::name::FilterNames;
use geyser_filter::pubkey::{ParseSignatureError, Pubkey, Signature};
use geyser_filter::pubkey_set::PubkeySet;
use geyser_filter::request::{
    AccountsFilterDataOneof, SubscribeDeshredRequest, SubscribeRequest,
    SubscribeRequestFilterAccounts, SubscribeRequestFilterAccountsFilter,
    SubscribeRequestFilterDeshredTransactions, SubscribeRequestFilterTransactions,
};
use geyser_filter::transaction_gate::{
    ReplicaTransactionInfo, TransactionFilterGate, TransactionFilterRule,
};
use std::sync::Arc;

const AT: Timestamp = Timestamp { seconds: 1, nanos: 2 };

fn pubkey(n: u8) -> Pubkey {
    Pubkey::new_from_array([n; 32])
}

fn text(n: u8) -> String {
    solana_pubkey::Pubkey::new_from_array([n; 32]).to_string()
}

fn signature(n: u8) -> Signature {
    Signature::new_from_array([n; 64])
}

fn signature_text(n: u8) -> String {
    solana_signature::Signature::from([n; 64]).to_string()
}

fn filter_of(config: &SubscribeRequest) -> Filter {
    Filter::new(config, &FilterLimits::default(), &FilterNames::new(64)).unwrap()
}

fn account_filter(filters: Vec<SubscribeRequestFilterAccounts>) -> Filter {
    let mut config = SubscribeRequest::default();
    for (i, filter) in filters.into_iter().enumerate() {
        config.accounts.insert(format!("f{}", i), filter);
    }
    filter_of(&config)
}

fn account_message(key: u8, owner: u8, with_txn: bool, data: &[u8]) -> Message {
    Message::Account(MessageAccount {
        account: Arc::new(MessageAccountInfo {
            pubkey: pubkey(key),
            lamports: 0,
            owner: pubkey(owner),
            executable: false,
            rent_epoch: 0,
            data: data.to_vec(),
            write_version: 0,
            txn_signature: if with_txn { Some(signature(1)) } else { None },
        }),
        slot: 1,
        is_startup: false,
        created_at: AT,
    })
}

#[test]
fn an_account_gate_without_rules_rejects() {
    let gate = AccountFilterGate::default();
    assert!(!gate.allows_prepared(true, &pubkey(1), &pubkey(2)));
    assert!(!gate.allows(&ReplicaAccountInfo {
        pubkey: &[1; 32],
        owner: &[2; 32],
        has_txn: false,
    }));
}

#[test]
fn an_account_gate_reads_addresses() {
    let mut gate = AccountFilterGate::default();
    gate.update_client_rules(1, vec![AccountFilterRule::default()]);
    let allows = |pubkey: &[u8], owner: &[u8]| {
        gate.allows(&ReplicaAccountInfo {
            pubkey,
            owner,
            has_txn: true,
        })
    };
    assert!(allows(&[1; 32], &[2; 32]));
    assert!(!allows(&[1; 31], &[2; 32]));
    assert!(!allows(&[1; 32], &[2; 33]));
    assert!(!allows(&[], &[]));
}

#[test]
fn an_account_gate_follows_the_filter() {
    let filter = account_filter(vec![
        SubscribeRequestFilterAccounts {
            account: vec![text(1)],
            owner: vec![text(8), text(9)],
            nonempty_txn_signature: Some(true),
            ..SubscribeRequestFilterAccounts::default()
        },
        SubscribeRequestFilterAccounts {
            owner: vec![text(7)],
            ..SubscribeRequestFilterAccounts::default()
        },
    ]);
    let rules = filter.get_account_filter_rules();
    assert_eq!(rules.len(), 2);
    let mut gate = AccountFilterGate::default();
    gate.update_client_rules(1, rules);
    for key in [1, 2] {
        for owner in [7, 8, 9, 10] {
            for with_txn in [false, true] {
                let updates =
                    filter.get_updates(&account_message(key, owner, with_txn, &[]), None);
                assert_eq!(
                    gate.allows_prepared(with_txn, &pubkey(key), &pubkey(owner)),
                    !updates.is_empty()
                );
            }
        }
    }
    assert!(gate.allows_prepared(true, &pubkey(1), &pubkey(8)));
    assert!(!gate.allows_prepared(false, &pubkey(1), &pubkey(8)));
    assert!(!gate.allows_prepared(true, &pubkey(2), &pubkey(8)));
}

#[test]
fn an_account_gate_does_not_look_at_the_content() {
    let filter = account_filter(vec![SubscribeRequestFilterAccounts {
        filters: vec![SubscribeRequestFilterAccountsFilter {
            filter: Some(AccountsFilterDataOneof::Datasize(4)),
        }],
        ..SubscribeRequestFilterAccounts::default()
    }]);
    let mut gate = AccountFilterGate::default();
    gate.update_client_rules(1, filter.get_account_filter_rules());
    assert!(gate.allows_prepared(false, &pubkey(1), &pubkey(2)));
    assert!(filter.get_updates(&account_message(1, 2, false, &[]), None).is_empty());
    assert_eq!(
        filter.get_updates(&account_message(1, 2, false, &[0; 4]), None).len(),
        1
    );
}

#[test]
fn clients_come_and_go() {
    let rules = |n: u8| {
        account_filter(vec![SubscribeRequestFilterAccounts {
            account: vec![text(n)],
            ..SubscribeRequestFilterAccounts::default()
        }])
        .get_account_filter_rules()
    };
    let mut gate = AccountFilterGate::default();
    let seen = |gate: &AccountFilterGate| -> Vec<u8> {
        (1..5)
            .filter(|n| gate.allows_prepared(false, &pubkey(*n), &pubkey(0)))
            .collect()
    };
    gate.update_client_rules(10, rules(1));
    gate.update_client_rules(20, rules(2));
    assert_eq!(seen(&gate), [1, 2]);
    // the last update of a client counts
    gate.update_client_rules(10, rules(3));
    assert_eq!(seen(&gate), [2, 3]);
    // without rules a client is gone
    gate.update_client_rules(20, vec![]);
    assert_eq!(seen(&gate), [3]);
    // a client that is not there cannot be removed
    gate.remove_client(20);
    assert_eq!(seen(&gate), [3]);
    gate.update_client_rules(30, rules(4));
    gate.remove_client(30);
    assert_eq!(seen(&gate), [3]);
    assert_eq!(gate.merged_rules().len(), 1);
    gate.remove_client(10);
    assert!(seen(&gate).is_empty());
    assert!(gate.merged_rules().is_empty());
}

#[test]
fn rules_are_appended() {
    let configs = |n: u8| {
        let filter = SubscribeRequestFilterAccounts {
            account: vec![text(n)],
            ..SubscribeRequestFilterAccounts::default()
        };
        [("f".to_string(), filter)]
    };
    let limits = FilterLimits::default();
    let mut rules: Vec<AccountFilterRule> = Vec::new();
    for n in 1..4 {
        FilterAccounts::new(&configs(n), &limits.accounts, &FilterNames::new(64))
            .unwrap()
            .collect_rules(&mut rules);
    }
    let seen: Vec<Vec<u8>> = rules
        .iter()
        .map(|rule| {
            (1..5)
                .filter(|n| rule.matches_prepared(false, &pubkey(*n), &pubkey(0)))
                .collect()
        })
        .collect();
    assert_eq!(seen, [[1], [2], [3]]);
}

#[test]
fn all_rules_are_in_one_list() {
    let rules = |n: u8| vec![TransactionFilterRule::default(); n as usize];
    let mut gate = TransactionFilterGate::default();
    gate.update_client_rules(7, rules(2));
    gate.update_client_rules(3, rules(1));
    gate.update_client_rules(5, rules(4));
    assert_eq!(gate.merged_rules().len(), 7);
    gate.update_client_rules(7, rules(1));
    assert_eq!(gate.merged_rules().len(), 6);
    gate.remove_client(5);
    assert_eq!(gate.merged_rules().len(), 2);
}

fn any_transaction() -> SubscribeRequestFilterTransactions {
    SubscribeRequestFilterTransactions::default()
}

fn transaction_filter(filter: SubscribeRequestFilterTransactions) -> Filter {
    let mut config = SubscribeRequest::default();
    config.transactions.insert("t".to_string(), filter);
    filter_of(&config)
}

fn gate_of(filter: &Filter) -> TransactionFilterGate {
    let mut gate = TransactionFilterGate::default();
    gate.update_client_rules(1, filter.get_transaction_filter_rules());
    gate
}

struct Tx {
    signature: Signature,
    is_vote: bool,
    is_failed: bool,
    static_keys: Vec<Pubkey>,
    writable: Vec<Pubkey>,
    readonly: Vec<Pubkey>,
}

impl Tx {
    fn new(static_keys: &[u8], writable: &[u8], readonly: &[u8]) -> Tx {
        let keys = |list: &[u8]| list.iter().map(|n| pubkey(*n)).collect();
        Tx {
            signature: signature(5),
            is_vote: false,
            is_failed: false,
            static_keys: keys(static_keys),
            writable: keys(writable),
            readonly: keys(readonly),
        }
    }

    fn info(&self) -> ReplicaTransactionInfo<'_> {
        ReplicaTransactionInfo {
            signature: &self.signature,
            is_vote: self.is_vote,
            is_failed: self.is_failed,
            static_account_keys: &self.static_keys,
            loaded_writable: &self.writable,
            loaded_readonly: &self.readonly,
        }
    }

    fn all_keys(&self) -> PubkeySet {
        let mut keys = PubkeySet::from_slice(&self.static_keys);
        keys.extend_from_slice(&self.writable);
        keys.extend_from_slice(&self.readonly);
        keys
    }

    fn message(&self) -> Message {
        Message::Transaction(MessageTransaction {
            transaction: Arc::new(MessageTransactionInfo {
                signature: self.signature,
                is_vote: self.is_vote,
                transaction: Transaction {
                    signatures: vec![self.signature.bytes.to_vec(), vec![0; 64]],
                },
                meta: TransactionStatusMeta {
                    err: if self.is_failed { Some(vec![1]) } else { None },
                },
                index: 0,
                account_keys: self.all_keys(),
            }),
            slot: 1,
            created_at: AT,
        })
    }

    fn deshred(&self) -> MessageDeshredTransaction {
        MessageDeshredTransaction {
            transaction: Arc::new(MessageDeshredTransactionInfo {
                signature: self.signature,
                is_vote: self.is_vote,
                transaction: Transaction {
                    signatures: vec![self.signature.bytes.to_vec()],
                },
                static_account_keys: self.static_keys.clone(),
                loaded_writable_addresses: self.writable.clone(),
                loaded_readonly_addresses: self.readonly.clone(),
            }),
            slot: 1,
            created_at: AT,
        }
    }
}

fn samples() -> Vec<Tx> {
    let mut samples = vec![];
    for keys in [
        (vec![1], vec![], vec![]),
        (vec![1, 2], vec![], vec![]),
        (vec![3], vec![2], vec![]),
        (vec![3], vec![], vec![2]),
        (vec![4], vec![1], vec![2, 3]),
        (vec![], vec![], vec![]),
    ] {
        for is_vote in [false, true] {
            for is_failed in [false, true] {
                let mut tx = Tx::new(&keys.0, &keys.1, &keys.2);
                tx.is_vote = is_vote;
                tx.is_failed = is_failed;
                tx.signature = signature(if is_vote { 5 } else { 6 });
                samples.push(tx);
            }
        }
    }
    samples
}

fn assert_gate_is_exact(filter: SubscribeRequestFilterTransactions, wanted: usize) {
    let filter = transaction_filter(filter);
    let gate = gate_of(&filter);
    let mut count = 0;
    for tx in samples() {
        let updates = filter.get_updates(&tx.message(), None);
        assert_eq!(gate.allows(&tx.info()), !updates.is_empty());
        match gate.allows_and_account_keys(&tx.info()) {
            Some(keys) => {
                assert!(!updates.is_empty());
                assert!(keys.is_subset(&tx.all_keys()) && tx.all_keys().is_subset(&keys));
                count += 1;
            }
            None => assert!(updates.is_empty()),
        }
    }
    assert_eq!(count, wanted);
}

#[test]
fn a_transaction_gate_is_exact() {
    assert_gate_is_exact(any_transaction(), 24);
    assert_gate_is_exact(
        SubscribeRequestFilterTransactions {
            vote: Some(true),
            ..any_transaction()
        },
        12,
    );
    assert_gate_is_exact(
        SubscribeRequestFilterTransactions {
            failed: Some(false),
            ..any_transaction()
        },
        12,
    );
    assert_gate_is_exact(
        SubscribeRequestFilterTransactions {
            signature: Some(signature_text(5)),
            failed: Some(true),
            ..any_transaction()
        },
        6,
    );
    assert_gate_is_exact(
        SubscribeRequestFilterTransactions {
            account_include: vec![text(1), text(3)],
            ..any_transaction()
        },
        20,
    );
    assert_gate_is_exact(
        SubscribeRequestFilterTransactions {
            account_exclude: vec![text(2)],
            ..any_transaction()
        },
        8,
    );
    assert_gate_is_exact(
        SubscribeRequestFilterTransactions {
            account_required: vec![text(2), text(3)],
            ..any_transaction()
        },
        12,
    );
}

#[test]
fn a_transaction_gate_without_rules_rejects() {
    let gate = TransactionFilterGate::default();
    assert!(!gate.allows(&Tx::new(&[1], &[], &[]).info()));
    assert!(gate.allows_and_account_keys(&Tx::new(&[1], &[], &[]).info()).is_none());
}

#[test]
fn rules_come_from_transactions_and_statuses() {
    let mut config = SubscribeRequest::default();
    config.transactions.insert(
        "t".to_string(),
        SubscribeRequestFilterTransactions {
            account_include: vec![text(1), text(1)],
            account_exclude: vec![text(2)],
            account_required: vec![text(3), text(4)],
            ..any_transaction()
        },
    );
    config.transactions_status.insert(
        "s".to_string(),
        SubscribeRequestFilterTransactions {
            vote: Some(false),
            signature: Some(signature_text(9)),
            ..any_transaction()
        },
    );
    let mut rules = filter_of(&config).get_transaction_filter_rules();
    assert_eq!(rules.len(), 2);
    assert_eq!(rules[0].account_include, vec![pubkey(1)]);
    assert_eq!(rules[0].account_exclude, vec![pubkey(2)]);
    assert_eq!(rules[0].account_required, vec![pubkey(3), pubkey(4)]);
    assert_eq!(rules[0].vote, None);
    assert_eq!(rules[1].vote, Some(false));
    assert_eq!(rules[1].failed, None);
    assert_eq!(rules[1].signature, Some(signature(9)));

    let status = rules.pop().unwrap();
    let mut gate = TransactionFilterGate::default();
    gate.update_client_rules(4, vec![status]);
    let mut tx = Tx::new(&[8], &[], &[]);
    assert!(!gate.allows(&tx.info()));
    tx.signature = signature(9);
    assert!(gate.allows(&tx.info()));
    assert_eq!(gate.merged_rules().len(), 1);
    gate.update_client_rules(5, vec![TransactionFilterRule::default()]);
    tx.is_vote = true;
    assert!(gate.allows(&tx.info()));
    gate.remove_client(5);
    assert!(!gate.allows(&tx.info()));
}

#[test]
fn a_rule_is_matched_by_its_lists() {
    let a = pubkey(1);
    let b = pubkey(2);
    let only_b = [b];
    let view = TxAccountKeysView {
        static_keys: &only_b,
        loaded_writable: &[],
        loaded_readonly: &[],
    };
    let matches = |rule: &TransactionFilterRule| {
        rule.matches_prepared(false, false, &Signature::default(), &view)
    };
    assert!(matches(&TransactionFilterRule::default()));
    let mut rule = TransactionFilterRule::default();
    rule.account_include = vec![a];
    assert!(!matches(&rule));
    rule.account_include = vec![a, b];
    assert!(matches(&rule));
    rule.account_exclude = vec![b];
    assert!(!matches(&rule));
    rule.account_exclude = vec![a];
    rule.account_required = vec![b];
    assert!(matches(&rule));
    rule.account_required = vec![b, a];
    assert!(!matches(&rule));

    let received = |rule: &DeshredTransactionFilterRule| rule.matches_prepared(false, &view);
    let mut rule = DeshredTransactionFilterRule::default();
    assert!(received(&rule));
    rule.account_include = vec![a];
    assert!(!received(&rule));
    rule.account_include = vec![b];
    assert!(received(&rule));
    rule.account_exclude = vec![b, a];
    assert!(!received(&rule));
    rule.account_exclude = vec![];
    rule.account_required = vec![a];
    assert!(!received(&rule));
}

#[test]
fn an_update_replaces_the_rules_of_one_client() {
    let rules = |n: u8| {
        let mut rule = TransactionFilterRule::default();
        rule.account_include = vec![pubkey(n)];
        vec![rule]
    };
    let seen = |gate: &TransactionFilterGate| -> Vec<u8> {
        (1..5)
            .filter(|n| gate.allows(&Tx::new(&[*n], &[], &[]).info()))
            .collect()
    };
    let mut gate = TransactionFilterGate::default();
    gate.update_client_rules(10, rules(1));
    gate.update_client_rules(20, rules(2));
    assert_eq!(seen(&gate), [1, 2]);
    gate.update_client_rules(10, rules(4));
    assert_eq!(seen(&gate), [2, 4]);
    gate.update_client_rules(10, vec![]);
    assert_eq!(seen(&gate), [2]);
    gate.remove_client(20);
    assert!(seen(&gate).is_empty());

    let rules = |n: u8| {
        let mut rule = DeshredTransactionFilterRule::default();
        rule.account_required = vec![pubkey(n)];
        vec![rule]
    };
    let message = Tx::new(&[1], &[], &[]).deshred();
    let mut gate = DeshredTransactionFilterGate::default();
    gate.update_client_rules(10, rules(1));
    assert!(gate.allows_message(&message));
    gate.update_client_rules(20, rules(2));
    assert!(gate.allows_message(&message));
    gate.update_client_rules(10, rules(2));
    assert!(!gate.allows_message(&message));
}

#[test]
fn accounts_stay_in_their_lists() {
    let mut tx = Tx::new(&[1], &[2], &[3]);
    let view = tx.info().account_keys();
    assert_eq!(view.static_keys, [pubkey(1)]);
    assert_eq!(view.loaded_writable, [pubkey(2)]);
    assert_eq!(view.loaded_readonly, [pubkey(3)]);
    assert!(view.any_listed(&[pubkey(9), pubkey(3)]));
    assert!(!view.any_listed(&[pubkey(9)]));
    assert!(view.contains_listed(&[pubkey(3), pubkey(1)]));
    assert!(!view.contains_listed(&[pubkey(3), pubkey(9)]));
    assert!(view.contains_listed(&[]));
    tx.readonly.clear();
    let message = tx.deshred();
    let view = message.transaction.all_account_keys();
    assert_eq!(view.loaded_writable, [pubkey(2)]);
    assert!(view.loaded_readonly.is_empty());
}

#[test]
fn a_signature_is_compared_with_the_first() {
    let filter = transaction_filter(SubscribeRequestFilterTransactions {
        signature: Some(signature_text(5)),
        ..any_transaction()
    });
    let info = |signatures: Vec<Vec<u8>>| {
        Message::Transaction(MessageTransaction {
            transaction: Arc::new(MessageTransactionInfo {
                signature: signature(5),
                is_vote: false,
                transaction: Transaction { signatures },
                meta: TransactionStatusMeta { err: None },
                index: 0,
                account_keys: PubkeySet::new(),
            }),
            slot: 1,
            created_at: AT,
        })
    };
    assert_eq!(filter.get_updates(&info(vec![vec![5; 64]]), None).len(), 1);
    assert!(filter.get_updates(&info(vec![vec![6; 64], vec![5; 64]]), None).is_empty());
    assert!(filter.get_updates(&info(vec![vec![5; 63]]), None).is_empty());
    assert!(filter.get_updates(&info(vec![]), None).is_empty());
}

#[test]
fn texts_that_are_no_signature_are_refused() {
    let refused = |text: &str| {
        let mut config = SubscribeRequest::default();
        config.transactions.insert(
            "t".to_string(),
            SubscribeRequestFilterTransactions {
                signature: Some(text.to_string()),
                ..any_transaction()
            },
        );
        match Filter::new(&config, &FilterLimits::default(), &FilterNames::new(64)) {
            Err(FilterError::InvalidSignature(e)) => e,
            other => panic!("{:?}", other),
        }
    };
    assert_eq!(refused(&"1".repeat(89)), ParseSignatureError::WrongSize);
    assert_eq!(refused("1"), ParseSignatureError::WrongSize);
    assert_eq!(refused(&"0".repeat(88)), ParseSignatureError::Invalid);
}

#[test]
fn transactions_beyond_the_limits_are_refused() {
    let mut config = SubscribeRequest::default();
    config.transactions.insert(
        "t".to_string(),
        SubscribeRequestFilterTransactions {
            account_include: vec![text(1), text(2)],
            account_exclude: vec![text(3), text(4), text(5)],
            account_required: vec![text(6), text(7), text(8), text(9)],
            ..any_transaction()
        },
    );
    let refused = |change: &dyn Fn(&mut FilterLimits)| {
        let mut limits = FilterLimits::default();
        change(&mut limits);
        match Filter::new(&config, &limits, &FilterNames::new(64)) {
            Err(FilterError::LimitsCheck(e)) => e,
            other => panic!("{:?}", other),
        }
    };
    assert_eq!(
        refused(&|limits| limits.transactions.account_include_max = 1),
        FilterLimitsCheckError::MaxPubkey { max: 1 }
    );
    assert_eq!(
        refused(&|limits| limits.transactions.account_exclude_max = 2),
        FilterLimitsCheckError::MaxPubkey { max: 2 }
    );
    assert_eq!(
        refused(&|limits| limits.transactions.account_required_max = 3),
        FilterLimitsCheckError::MaxPubkey { max: 3 }
    );
    assert_eq!(
        refused(&|limits| {
            limits.transactions.account_include_reject = PubkeySet::from_slice(&[pubkey(2)])
        }),
        FilterLimitsCheckError::PubkeyReject { pubkey: pubkey(2) }
    );
    // only included accounts can be rejected
    let mut limits = FilterLimits::default();
    limits.transactions.account_include_reject = PubkeySet::from_slice(&[pubkey(3), pubkey(6)]);
    assert!(Filter::new(&config, &limits, &FilterNames::new(64)).is_ok());
}

fn deshred_filter(filter: SubscribeRequestFilterDeshredTransactions) -> DeshredFilter {
    let mut config = SubscribeDeshredRequest::default();
    config.deshred_transactions.insert("d".to_string(), filter);
    DeshredFilter::new(&config, &FilterLimits::default(), &FilterNames::new(64)).unwrap()
}

#[test]
fn a_deshred_gate_is_exact() {
    let any = SubscribeRequestFilterDeshredTransactions::default();
    for (filter, wanted) in [
        (any.clone(), 24),
        (
            SubscribeRequestFilterDeshredTransactions {
                vote: Some(false),
                account_include: vec![text(2)],
                ..any.clone()
            },
            8,
        ),
        (
            SubscribeRequestFilterDeshredTransactions {
                account_exclude: vec![text(1), text(3)],
                ..any.clone()
            },
            4,
        ),
        (
            SubscribeRequestFilterDeshredTransactions {
                account_required: vec![text(1), text(2)],
                ..any
            },
            8,
        ),
    ] {
        let filter = deshred_filter(filter);
        let mut gate = DeshredTransactionFilterGate::default();
        gate.update_client_rules(1, filter.get_deshred_transaction_filter_rules());
        let mut count = 0;
        for tx in samples() {
            let info = ReplicaDeshredTransactionInfo {
                is_vote: tx.is_vote,
                static_account_keys: &tx.static_keys,
                loaded_addresses: Some(LoadedAddresses {
                    writable: &tx.writable,
                    readonly: &tx.readonly,
                }),
            };
            let allowed = gate.allows(&info);
            assert_eq!(gate.allows_message(&tx.deshred()), allowed);
            let updates = filter.get_updates(&Message::DeshredTransaction(tx.deshred()));
            assert_eq!(!updates.is_empty(), allowed);
            if allowed {
                count += 1;
            }
        }
        assert_eq!(count, wanted);
        assert_eq!(gate.merged_rules().len(), 1);
        assert_eq!(filter.get_metrics(), [("deshred_transactions", 1), ("all", 1)]);
    }
}

#[test]
fn received_transactions_beyond_the_limits_are_refused() {
    let config = |filter: SubscribeRequestFilterDeshredTransactions| {
        let mut config = SubscribeDeshredRequest::default();
        config.deshred_transactions.insert("d".to_string(), filter);
        config
    };
    let named = config(SubscribeRequestFilterDeshredTransactions {
        vote: None,
        account_include: vec![text(1), text(2)],
        account_exclude: vec![text(3), text(4), text(5)],
        account_required: vec![text(6), text(7), text(8), text(9)],
    });
    let refused = |change: &dyn Fn(&mut FilterLimits)| {
        let mut limits = FilterLimits::default();
        change(&mut limits);
        match DeshredFilter::new(&named, &limits, &FilterNames::new(64)) {
            Err(FilterError::LimitsCheck(e)) => e,
            other => panic!("{:?}", other),
        }
    };
    assert_eq!(
        refused(&|limits| limits.deshred_transactions.max = 0),
        FilterLimitsCheckError::Max { max: 0 }
    );
    assert_eq!(
        refused(&|limits| limits.deshred_transactions.account_include_max = 1),
        FilterLimitsCheckError::MaxPubkey { max: 1 }
    );
    assert_eq!(
        refused(&|limits| limits.deshred_transactions.account_exclude_max = 2),
        FilterLimitsCheckError::MaxPubkey { max: 2 }
    );
    assert_eq!(
        refused(&|limits| limits.deshred_transactions.account_required_max = 3),
        FilterLimitsCheckError::MaxPubkey { max: 3 }
    );
    assert_eq!(
        refused(&|limits| {
            limits.deshred_transactions.account_include_reject = PubkeySet::from_slice(&[pubkey(1)])
        }),
        FilterLimitsCheckError::PubkeyReject { pubkey: pubkey(1) }
    );

    let mut limits = FilterLimits::default();
    limits.deshred_transactions.any = false;
    assert!(DeshredFilter::new(&named, &limits, &FilterNames::new(64)).is_ok());
    let vote = config(SubscribeRequestFilterDeshredTransactions {
        vote: Some(false),
        ..SubscribeRequestFilterDeshredTransactions::default()
    });
    assert!(DeshredFilter::new(&vote, &limits, &FilterNames::new(64)).is_ok());
    let wrong = config(SubscribeRequestFilterDeshredTransactions {
        account_required: vec!["no address".to_string()],
        ..SubscribeRequestFilterDeshredTransactions::default()
    });
    assert!(matches!(
        DeshredFilter::new(&wrong, &limits, &FilterNames::new(64)),
        Err(FilterError::InvalidPubkey(_))
    ));
}

#[test]
fn unknown_loaded_addresses_count_as_none() {
    let filter = deshred_filter(SubscribeRequestFilterDeshredTransactions {
        account_include: vec![text(2)],
        ..SubscribeRequestFilterDeshredTransactions::default()
    });
    let mut gate = DeshredTransactionFilterGate::default();
    gate.update_client_rules(1, filter.get_deshred_transaction_filter_rules());
    let static_keys = [pubkey(1)];
    let loaded = [pubkey(2)];
    let info = |loaded_addresses| ReplicaDeshredTransactionInfo {
        is_vote: false,
        static_account_keys: &static_keys,
        loaded_addresses,
    };
    assert!(!gate.allows(&info(None)));
    assert!(gate.allows(&info(Some(LoadedAddresses {
        writable: &[],
        readonly: &loaded,
    }))));
}

#[test]
fn the_two_streams_are_separate() {
    let deshred = deshred_filter(SubscribeRequestFilterDeshredTransactions::default());
    let main = transaction_filter(any_transaction());
    let tx = Tx::new(&[1], &[], &[]);
    assert_eq!(main.get_updates(&tx.message(), None).len(), 1);
    assert!(deshred.get_updates(&tx.message()).is_empty());
    let received = Message::DeshredTransaction(tx.deshred());
    assert!(main.get_updates(&received, None).is_empty());
    assert_eq!(deshred.get_updates(&received).len(), 1);
    assert!(Filter::default().get_updates(&tx.message(), None).is_empty());
    assert!(DeshredFilter::default().get_updates(&received).is_empty());
    assert_eq!(deshred.clone().get_updates(&received).len(), 1);
}
