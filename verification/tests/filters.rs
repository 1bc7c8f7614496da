use geyser_filter::deshred_filter::DeshredFilter;
use geyser_filter::deshred_gate::DeshredTransactionFilterGate;
use geyser_filter::filter::Filter;
use geyser_filter::limits::FilterLimits;
use geyser_filter::message::{
    Message, MessageDeshredTransaction, MessageDeshredTransactionInfo, MessageTransaction,
    MessageTransactionInfo, Timestamp, Transaction as MessageTransactionBody,
    TransactionStatusMeta,
};
use geyser_filter::name::{FilterName, FilterNames};
use geyser_filter::named::Named;
use geyser_filter::pubkey::{Pubkey as Key, Signature as Sig};
use geyser_filter::pubkey_set::PubkeySet;
use geyser_filter::request::{
    SubscribeDeshredRequest, SubscribeRequest, SubscribeRequestFilterAccounts,
    SubscribeRequestFilterDeshredTransactions, SubscribeRequestFilterTransactions,
    SubscribeRequestPing,
};
use geyser_filter::update::{FilteredUpdateDeshredOneof, FilteredUpdateOneof};
use solana_keypair::Keypair;
use solana_message::{Message as SolMessage, MessageHeader};
use solana_pubkey::Pubkey;
use solana_signer::Signer;
use solana_transaction::versioned::VersionedTransaction;
use solana_transaction::Transaction;
use std::sync::Arc;
use std::time::{SystemTime, UNIX_EPOCH};

fn create_filter_names() -> FilterNames {
    FilterNames::new(64)
}

fn now() -> Timestamp {
    let elapsed = SystemTime::now().duration_since(UNIX_EPOCH).unwrap();
    Timestamp {
        seconds: elapsed.as_secs() as i64,
        nanos: elapsed.subsec_nanos() as i32,
    }
}

fn key(pubkey: &Pubkey) -> Key {
    Key::new_from_array(pubkey.to_bytes())
}

fn keys(pubkeys: &[Pubkey]) -> Vec<Key> {
    pubkeys.iter().map(key).collect()
}

fn texts(pubkeys: &[Pubkey]) -> Vec<String> {
    pubkeys.iter().map(|k| k.to_string()).collect()
}

fn signed_transaction(keypair: &Keypair, account_keys: Vec<Pubkey>) -> VersionedTransaction {
    let message = SolMessage {
        header: MessageHeader {
            num_required_signatures: 1,
            ..MessageHeader::default()
        },
        account_keys,
        ..SolMessage::default()
    };
    let recent_blockhash = solana_hash::Hash::default();
    VersionedTransaction::from(Transaction::new(&[keypair], message, recent_blockhash))
}

fn first_signature(transaction: &VersionedTransaction) -> Sig {
    let signature = transaction.signatures.first().expect("No signature found");
    let bytes: [u8; 64] = (*signature).into();
    Sig::new_from_array(bytes)
}

fn transaction_body(transaction: &VersionedTransaction) -> MessageTransactionBody {
    MessageTransactionBody {
        signatures: transaction
            .signatures
            .iter()
            .map(|signature| signature.as_ref().to_vec())
            .collect(),
    }
}

fn create_message_transaction(keypair: &Keypair, account_keys: Vec<Pubkey>) -> MessageTransaction {
    let transaction = signed_transaction(keypair, account_keys);
    MessageTransaction {
        transaction: Arc::new(MessageTransactionInfo {
            signature: first_signature(&transaction),
            is_vote: true,
            transaction: transaction_body(&transaction),
            meta: TransactionStatusMeta { err: None },
            index: 1,
            account_keys: PubkeySet::from_slice(&keys(transaction.message.static_account_keys())),
        }),
        slot: 100,
        created_at: now(),
    }
}

fn create_message_deshred_transaction(
    keypair: &Keypair,
    static_account_keys: Vec<Pubkey>,
    loaded_writable: Vec<Pubkey>,
    loaded_readonly: Vec<Pubkey>,
    is_vote: bool,
) -> MessageDeshredTransaction {
    let transaction = signed_transaction(keypair, static_account_keys.clone());
    MessageDeshredTransaction {
        transaction: Arc::new(MessageDeshredTransactionInfo {
            signature: first_signature(&transaction),
            is_vote,
            transaction: transaction_body(&transaction),
            static_account_keys: keys(&static_account_keys),
            loaded_writable_addresses: keys(&loaded_writable),
            loaded_readonly_addresses: keys(&loaded_readonly),
        }),
        slot: 100,
        created_at: now(),
    }
}

fn transactions_named(
    name: &str,
    filter: &SubscribeRequestFilterTransactions,
) -> Named<SubscribeRequestFilterTransactions> {
    let mut transactions = Named::new();
    transactions.insert(name.to_string(), filter.clone());
    transactions
}

fn deshred_named(
    name: &str,
    filter: SubscribeRequestFilterDeshredTransactions,
) -> Named<SubscribeRequestFilterDeshredTransactions> {
    let mut deshred_transactions = Named::new();
    deshred_transactions.insert(name.to_string(), filter);
    deshred_transactions
}

fn deshred_filter(name: &str, filter: SubscribeRequestFilterDeshredTransactions) -> DeshredFilter {
    DeshredFilter::new(
        &SubscribeDeshredRequest {
            deshred_transactions: deshred_named(name, filter),
            ping: None,
        },
        &FilterLimits::default(),
        &mut create_filter_names(),
    )
    .unwrap()
}

fn request_for_transactions(
    transactions: Named<SubscribeRequestFilterTransactions>,
) -> SubscribeRequest {
    SubscribeRequest {
        accounts: Named::new(),
        slots: Named::new(),
        transactions,
        transactions_status: Named::new(),
        blocks: Named::new(),
        blocks_meta: Named::new(),
        entry: Named::new(),
        commitment: None,
        accounts_data_slice: Vec::new(),
        ping: None,
        from_slot: None,
    }
}

#[test]
fn test_filters_all_empty() {
    // ensure Filter can be created with empty values
    let config = request_for_transactions(Named::new());
    let limit = FilterLimits::default();
    let filter = Filter::new(&config, &limit, &mut create_filter_names());
    assert!(filter.is_ok());
}

#[test]
fn test_filters_account_empty() {
    let mut accounts = Named::new();

    accounts.insert(
        "solend".to_owned(),
        SubscribeRequestFilterAccounts {
            nonempty_txn_signature: None,
            account: vec![],
            owner: vec![],
            filters: vec![],
        },
    );

    let mut config = request_for_transactions(Named::new());
    config.accounts = accounts;
    let mut limit = FilterLimits::default();
    limit.accounts.any = false;
    let filter = Filter::new(&config, &limit, &mut create_filter_names());
    // filter should fail
    assert!(filter.is_err());
}

#[test]
fn test_filters_transaction_empty() {
    let transactions = transactions_named(
        "serum",
        &SubscribeRequestFilterTransactions {
            vote: None,
            failed: None,
            signature: None,
            account_include: vec![],
            account_exclude: vec![],
            account_required: vec![],
        },
    );

    let config = request_for_transactions(transactions);
    let mut limit = FilterLimits::default();
    limit.transactions.any = false;
    let filter = Filter::new(&config, &limit, &mut create_filter_names());
    // filter should fail
    assert!(filter.is_err());
}

#[test]
fn test_filters_transaction_not_null() {
    let transactions = transactions_named(
        "serum",
        &SubscribeRequestFilterTransactions {
            vote: Some(true),
            failed: None,
            signature: None,
            account_include: vec![],
            account_exclude: vec![],
            account_required: vec![],
        },
    );

    let config = request_for_transactions(transactions);
    let mut limit = FilterLimits::default();
    limit.transactions.any = false;
    let filter_res = Filter::new(&config, &limit, &mut create_filter_names());
    // filter should succeed
    assert!(filter_res.is_ok());
}

fn assert_transaction_and_status(
    filter_config: &SubscribeRequestFilterTransactions,
    message_transaction: MessageTransaction,
) {
    let mut config = request_for_transactions(transactions_named("serum", filter_config));
    let limit = FilterLimits::default();
    let filter = Filter::new(&config, &limit, &mut create_filter_names()).unwrap();

    let message = Message::Transaction(message_transaction);
    let updates = filter.get_updates(&message, None);
    assert_eq!(updates.len(), 1);
    assert_eq!(updates[0].filters, vec![FilterName::new("serum")]);
    assert!(matches!(
        updates[0].message,
        FilteredUpdateOneof::Transaction(_)
    ));

    config.transactions_status = transactions_named("serum", filter_config);
    let filter = Filter::new(&config, &limit, &mut create_filter_names()).unwrap();
    let updates = filter.get_updates(&message, None);
    assert_eq!(updates.len(), 2);
    assert_eq!(updates[1].filters, vec![FilterName::new("serum")]);
    assert!(matches!(
        updates[1].message,
        FilteredUpdateOneof::TransactionStatus(_)
    ));
}

#[test]
fn test_transaction_include_a() {
    let keypair_a = Keypair::new();
    let account_key_a = keypair_a.pubkey();
    let keypair_b = Keypair::new();
    let account_key_b = keypair_b.pubkey();
    let filter = SubscribeRequestFilterTransactions {
        vote: None,
        failed: None,
        signature: None,
        account_include: texts(&[account_key_a]),
        account_exclude: vec![],
        account_required: vec![],
    };
    assert_transaction_and_status(
        &filter,
        create_message_transaction(&keypair_b, vec![account_key_b, account_key_a]),
    );
}

#[test]
fn test_transaction_include_b() {
    let keypair_a = Keypair::new();
    let account_key_a = keypair_a.pubkey();
    let keypair_b = Keypair::new();
    let account_key_b = keypair_b.pubkey();
    let filter = SubscribeRequestFilterTransactions {
        vote: None,
        failed: None,
        signature: None,
        account_include: texts(&[account_key_b]),
        account_exclude: vec![],
        account_required: vec![],
    };
    assert_transaction_and_status(
        &filter,
        create_message_transaction(&keypair_b, vec![account_key_b, account_key_a]),
    );
}

#[test]
fn test_transaction_exclude() {
    let keypair_a = Keypair::new();
    let account_key_a = keypair_a.pubkey();
    let keypair_b = Keypair::new();
    let account_key_b = keypair_b.pubkey();
    let transactions = transactions_named(
        "serum",
        &SubscribeRequestFilterTransactions {
            vote: None,
            failed: None,
            signature: None,
            account_include: vec![],
            account_exclude: texts(&[account_key_b]),
            account_required: vec![],
        },
    );

    let config = request_for_transactions(transactions);
    let limit = FilterLimits::default();
    let filter = Filter::new(&config, &limit, &mut create_filter_names()).unwrap();

    let message_transaction =
        create_message_transaction(&keypair_b, vec![account_key_b, account_key_a]);
    let message = Message::Transaction(message_transaction);
    for message in filter.get_updates(&message, None) {
        assert!(message.filters.is_empty());
    }
}

#[test]
fn test_transaction_required_x_include_y_z_case001() {
    let keypair_x = Keypair::new();
    let account_key_x = keypair_x.pubkey();
    let account_key_y = Pubkey::new_unique();
    let account_key_z = Pubkey::new_unique();

    // require x, include y, z
    let filter = SubscribeRequestFilterTransactions {
        vote: None,
        failed: None,
        signature: None,
        account_include: texts(&[account_key_y, account_key_z]),
        account_exclude: vec![],
        account_required: texts(&[account_key_x]),
    };
    assert_transaction_and_status(
        &filter,
        create_message_transaction(
            &keypair_x,
            vec![account_key_x, account_key_y, account_key_z],
        ),
    );
}

#[test]
fn test_transaction_required_y_z_include_x() {
    let keypair_x = Keypair::new();
    let account_key_x = keypair_x.pubkey();
    let account_key_y = Pubkey::new_unique();
    let account_key_z = Pubkey::new_unique();

    // require y, z, include x
    let transactions = transactions_named(
        "serum",
        &SubscribeRequestFilterTransactions {
            vote: None,
            failed: None,
            signature: None,
            account_include: texts(&[account_key_x]),
            account_exclude: vec![],
            account_required: texts(&[account_key_y, account_key_z]),
        },
    );

    let config = request_for_transactions(transactions);
    let limit = FilterLimits::default();
    let filter = Filter::new(&config, &limit, &mut create_filter_names()).unwrap();

    let message_transaction =
        create_message_transaction(&keypair_x, vec![account_key_x, account_key_z]);
    let message = Message::Transaction(message_transaction);
    for message in filter.get_updates(&message, None) {
        assert!(message.filters.is_empty());
    }
}

#[test]
fn test_deshred_filter_empty_rejects() {
    let config = SubscribeDeshredRequest {
        deshred_transactions: deshred_named(
            "f1",
            SubscribeRequestFilterDeshredTransactions {
                vote: None,
                account_include: vec![],
                account_exclude: vec![],
                account_required: vec![],
            },
        ),
        ping: None,
    };
    let mut limit = FilterLimits::default();
    limit.deshred_transactions.any = false;
    let filter = DeshredFilter::new(&config, &limit, &mut create_filter_names());
    assert!(filter.is_err());
}

#[test]
fn test_deshred_filter_vote() {
    let keypair = Keypair::new();
    let key_a = keypair.pubkey();

    // Filter: vote=true
    let filter = deshred_filter(
        "votes",
        SubscribeRequestFilterDeshredTransactions {
            vote: Some(true),
            account_include: vec![],
            account_exclude: vec![],
            account_required: vec![],
        },
    );

    // Vote transaction should match
    let msg_vote = create_message_deshred_transaction(&keypair, vec![key_a], vec![], vec![], true);
    let message = Message::DeshredTransaction(msg_vote);
    let updates = filter.get_updates(&message);
    assert_eq!(updates.len(), 1);
    assert!(matches!(
        updates[0].message,
        FilteredUpdateDeshredOneof::DeshredTransaction(_)
    ));

    // Non-vote transaction should not match
    let msg_nonvote =
        create_message_deshred_transaction(&keypair, vec![key_a], vec![], vec![], false);
    let message = Message::DeshredTransaction(msg_nonvote);
    let updates = filter.get_updates(&message);
    assert!(updates.is_empty());
}

#[test]
fn test_deshred_filter_account_include_static() {
    let keypair = Keypair::new();
    let key_a = keypair.pubkey();
    let key_b = Pubkey::new_unique();
    let key_c = Pubkey::new_unique();

    let filter = deshred_filter(
        "f1",
        SubscribeRequestFilterDeshredTransactions {
            vote: None,
            account_include: texts(&[key_b]),
            account_exclude: vec![],
            account_required: vec![],
        },
    );

    // Transaction with key_b in static keys should match
    let msg =
        create_message_deshred_transaction(&keypair, vec![key_a, key_b], vec![], vec![], false);
    let message = Message::DeshredTransaction(msg);
    let updates = filter.get_updates(&message);
    assert_eq!(updates.len(), 1);

    // Transaction without key_b should not match
    let msg =
        create_message_deshred_transaction(&keypair, vec![key_a, key_c], vec![], vec![], false);
    let message = Message::DeshredTransaction(msg);
    let updates = filter.get_updates(&message);
    assert!(updates.is_empty());
}

#[test]
fn test_deshred_filter_account_include_loaded_addresses() {
    let keypair = Keypair::new();
    let key_a = keypair.pubkey();
    let key_alt_w = Pubkey::new_unique();
    let key_alt_r = Pubkey::new_unique();

    let filter = deshred_filter(
        "f1",
        SubscribeRequestFilterDeshredTransactions {
            vote: None,
            account_include: texts(&[key_alt_w]),
            account_exclude: vec![],
            account_required: vec![],
        },
    );

    // key_alt_w in loaded writable should match
    let msg = create_message_deshred_transaction(
        &keypair,
        vec![key_a],
        vec![key_alt_w],
        vec![],
        false,
    );
    let message = Message::DeshredTransaction(msg);
    let updates = filter.get_updates(&message);
    assert_eq!(updates.len(), 1);

    // key_alt_r in loaded readonly should match when filtering for it
    let filter2 = deshred_filter(
        "f2",
        SubscribeRequestFilterDeshredTransactions {
            vote: None,
            account_include: texts(&[key_alt_r]),
            account_exclude: vec![],
            account_required: vec![],
        },
    );

    let msg = create_message_deshred_transaction(
        &keypair,
        vec![key_a],
        vec![],
        vec![key_alt_r],
        false,
    );
    let message = Message::DeshredTransaction(msg);
    let updates = filter2.get_updates(&message);
    assert_eq!(updates.len(), 1);
}

#[test]
fn test_deshred_filter_account_exclude() {
    let keypair = Keypair::new();
    let key_a = keypair.pubkey();
    let key_b = Pubkey::new_unique();

    let filter = deshred_filter(
        "f1",
        SubscribeRequestFilterDeshredTransactions {
            vote: None,
            account_include: vec![],
            account_exclude: texts(&[key_b]),
            account_required: vec![],
        },
    );

    // Transaction with excluded key should not match
    let msg =
        create_message_deshred_transaction(&keypair, vec![key_a, key_b], vec![], vec![], false);
    let message = Message::DeshredTransaction(msg);
    let updates = filter.get_updates(&message);
    assert!(updates.is_empty());

    // Transaction without excluded key should match
    let msg = create_message_deshred_transaction(&keypair, vec![key_a], vec![], vec![], false);
    let message = Message::DeshredTransaction(msg);
    let updates = filter.get_updates(&message);
    assert_eq!(updates.len(), 1);
}

#[test]
fn test_deshred_filter_account_required() {
    let keypair = Keypair::new();
    let key_a = keypair.pubkey();
    let key_b = Pubkey::new_unique();
    let key_c = Pubkey::new_unique();

    let filter = deshred_filter(
        "f1",
        SubscribeRequestFilterDeshredTransactions {
            vote: None,
            account_include: vec![],
            account_exclude: vec![],
            account_required: texts(&[key_b, key_c]),
        },
    );

    // Transaction with both required keys should match
    let msg = create_message_deshred_transaction(
        &keypair,
        vec![key_a, key_b],
        vec![key_c],
        vec![],
        false,
    );
    let message = Message::DeshredTransaction(msg);
    let updates = filter.get_updates(&message);
    assert_eq!(updates.len(), 1);

    // Transaction missing one required key should not match
    let msg =
        create_message_deshred_transaction(&keypair, vec![key_a, key_b], vec![], vec![], false);
    let message = Message::DeshredTransaction(msg);
    let updates = filter.get_updates(&message);
    assert!(updates.is_empty());
}

#[test]
fn test_deshred_filter_pong() {
    let config = SubscribeDeshredRequest {
        deshred_transactions: Named::new(),
        ping: Some(SubscribeRequestPing { id: 42 }),
    };
    let limit = FilterLimits::default();
    let filter = DeshredFilter::new(&config, &limit, &mut create_filter_names()).unwrap();

    let pong = filter.get_pong_msg();
    assert!(pong.is_some());
    let pong = pong.unwrap();
    assert!(matches!(
        pong.message,
        FilteredUpdateDeshredOneof::Pong(ref p) if p.id == 42
    ));

    // Without ping, no pong
    let config_no_ping = SubscribeDeshredRequest {
        deshred_transactions: Named::new(),
        ping: None,
    };
    let filter2 = DeshredFilter::new(&config_no_ping, &limit, &mut create_filter_names()).unwrap();
    assert!(filter2.get_pong_msg().is_none());
}

#[test]
fn test_deshred_gate_without_rules_rejects() {
    let keypair = Keypair::new();
    let message = create_message_deshred_transaction(
        &keypair,
        vec![keypair.pubkey()],
        vec![],
        vec![],
        false,
    );

    let gate = DeshredTransactionFilterGate::default();
    assert!(!gate.allows_message(&message));
}

#[test]
fn test_deshred_gate_vote_match_and_miss() {
    let keypair = Keypair::new();
    let pubkey = keypair.pubkey();
    let filter = deshred_filter(
        "votes",
        SubscribeRequestFilterDeshredTransactions {
            vote: Some(true),
            account_include: vec![],
            account_exclude: vec![],
            account_required: vec![],
        },
    );
    let mut gate = DeshredTransactionFilterGate::default();
    gate.update_client_rules(1, filter.get_deshred_transaction_filter_rules());

    assert!(gate.allows_message(&create_message_deshred_transaction(
        &keypair,
        vec![pubkey],
        vec![],
        vec![],
        true,
    )));
    assert!(!gate.allows_message(&create_message_deshred_transaction(
        &keypair,
        vec![pubkey],
        vec![],
        vec![],
        false,
    )));
}

#[test]
fn test_deshred_gate_account_include_static_and_loaded() {
    let keypair = Keypair::new();
    let key_a = keypair.pubkey();
    let key_static = Pubkey::new_unique();
    let key_loaded = Pubkey::new_unique();
    let filter = deshred_filter(
        "f1",
        SubscribeRequestFilterDeshredTransactions {
            vote: None,
            account_include: texts(&[key_static, key_loaded]),
            account_exclude: vec![],
            account_required: vec![],
        },
    );
    let mut gate = DeshredTransactionFilterGate::default();
    gate.update_client_rules(1, filter.get_deshred_transaction_filter_rules());

    assert!(gate.allows_message(&create_message_deshred_transaction(
        &keypair,
        vec![key_a, key_static],
        vec![],
        vec![],
        false,
    )));
    assert!(gate.allows_message(&create_message_deshred_transaction(
        &keypair,
        vec![key_a],
        vec![key_loaded],
        vec![],
        false,
    )));
    assert!(!gate.allows_message(&create_message_deshred_transaction(
        &keypair,
        vec![key_a],
        vec![],
        vec![],
        false,
    )));
}

#[test]
fn test_deshred_gate_account_exclude_and_required() {
    let keypair = Keypair::new();
    let key_a = keypair.pubkey();
    let key_b = Pubkey::new_unique();
    let key_c = Pubkey::new_unique();
    let exclude_filter = deshred_filter(
        "exclude",
        SubscribeRequestFilterDeshredTransactions {
            vote: None,
            account_include: vec![],
            account_exclude: texts(&[key_b]),
            account_required: vec![],
        },
    );
    let mut exclude_gate = DeshredTransactionFilterGate::default();
    exclude_gate.update_client_rules(1, exclude_filter.get_deshred_transaction_filter_rules());

    assert!(
        !exclude_gate.allows_message(&create_message_deshred_transaction(
            &keypair,
            vec![key_a, key_b],
            vec![],
            vec![],
            false,
        ))
    );
    assert!(
        exclude_gate.allows_message(&create_message_deshred_transaction(
            &keypair,
            vec![key_a],
            vec![],
            vec![],
            false,
        ))
    );

    let required_filter = deshred_filter(
        "required",
        SubscribeRequestFilterDeshredTransactions {
            vote: None,
            account_include: vec![],
            account_exclude: vec![],
            account_required: texts(&[key_b, key_c]),
        },
    );
    let mut required_gate = DeshredTransactionFilterGate::default();
    required_gate.update_client_rules(1, required_filter.get_deshred_transaction_filter_rules());

    assert!(
        required_gate.allows_message(&create_message_deshred_transaction(
            &keypair,
            vec![key_a, key_b],
            vec![key_c],
            vec![],
            false,
        ))
    );
    assert!(
        !required_gate.allows_message(&create_message_deshred_transaction(
            &keypair,
            vec![key_a, key_b],
            vec![],
            vec![],
            false,
        ))
    );
}

#[test]
fn test_deshred_gate_merges_and_removes_client_rules() {
    let keypair = Keypair::new();
    let key_a = keypair.pubkey();
    let key_b = Pubkey::new_unique();
    let key_c = Pubkey::new_unique();

    let filter_one = deshred_filter(
        "one",
        SubscribeRequestFilterDeshredTransactions {
            vote: Some(true),
            account_include: vec![],
            account_exclude: vec![],
            account_required: vec![],
        },
    );
    let filter_two = deshred_filter(
        "two",
        SubscribeRequestFilterDeshredTransactions {
            vote: None,
            account_include: texts(&[key_b]),
            account_exclude: vec![],
            account_required: vec![],
        },
    );

    let mut gate = DeshredTransactionFilterGate::default();
    gate.update_client_rules(1, filter_one.get_deshred_transaction_filter_rules());
    gate.update_client_rules(2, filter_two.get_deshred_transaction_filter_rules());

    assert!(gate.allows_message(&create_message_deshred_transaction(
        &keypair,
        vec![key_a],
        vec![],
        vec![],
        true,
    )));
    assert!(gate.allows_message(&create_message_deshred_transaction(
        &keypair,
        vec![key_a, key_b],
        vec![],
        vec![],
        false,
    )));

    gate.remove_client(1);
    assert!(!gate.allows_message(&create_message_deshred_transaction(
        &keypair,
        vec![key_a],
        vec![],
        vec![],
        true,
    )));
    assert!(gate.allows_message(&create_message_deshred_transaction(
        &keypair,
        vec![key_a, key_b],
        vec![],
        vec![],
        false,
    )));

    gate.remove_client(2);
    assert!(!gate.allows_message(&create_message_deshred_transaction(
        &keypair,
        vec![key_a, key_b],
        vec![key_c],
        vec![],
        false,
    )));
}
