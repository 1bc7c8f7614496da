use geyser_filter::data_slice::SubscribeRequestAccountsDataSlice;
use geyser_filter::error::FilterError;
use geyser_filter::filter::Filter;
use geyser_filter::limits::{FilterLimits, FilterLimitsCheckError};
use geyser_filter::message::{
    CommitmentLevel, Message, MessageAccountInfo, MessageBlock, MessageBlockMeta, MessageEntry,
    MessageSlot, MessageTransactionInfo, SlotStatus, Timestamp, Transaction,
    TransactionStatusMeta,
};
use geyser_filter::name::{FilterName, FilterNames};
use geyser_filter::pubkey::{Pubkey, Signature};
use geyser_filter::pubkey_set::PubkeySet;
use geyser_filter::request::{
    SubscribeRequest, SubscribeRequestFilterBlocks, SubscribeRequestFilterBlocksMeta,
    SubscribeRequestFilterEntry, SubscribeRequestFilterSlots, SubscribeRequestPing,
};
use geyser_filter::update::{FilteredUpdateBlock, FilteredUpdateOneof};
use std::sync::Arc;

const AT: Timestamp = Timestamp { seconds: 1, nanos: 2 };

fn pubkey(n: u8) -> Pubkey {
    Pubkey::new_from_array([n; 32])
}

fn text(n: u8) -> String {
    solana_pubkey::Pubkey::new_from_array([n; 32]).to_string()
}

fn filter_of(config: &SubscribeRequest) -> Filter {
    Filter::new(config, &FilterLimits::default(), &FilterNames::new(64)).unwrap()
}

fn refused(config: &SubscribeRequest, limits: &FilterLimits) -> FilterError {
    Filter::new(config, limits, &FilterNames::new(64)).unwrap_err()
}

fn slot(status: SlotStatus) -> Message {
    Message::Slot(MessageSlot {
        slot: 4,
        parent: Some(3),
        status,
        dead_error: None,
        created_at: AT,
    })
}

fn slot_filter(by_commitment: Option<bool>, interslot: Option<bool>) -> Filter {
    let mut config = SubscribeRequest::default();
    config.slots.insert(
        "slots".to_string(),
        SubscribeRequestFilterSlots {
            filter_by_commitment: by_commitment,
            interslot_updates: interslot,
        },
    );
    filter_of(&config)
}

fn slot_accepted(filter: &Filter, status: SlotStatus, commitment: Option<CommitmentLevel>) -> bool {
    let updates = filter.get_updates(&slot(status), commitment);
    assert!(updates.len() <= 1);
    !updates.is_empty()
}

#[test]
fn slots_reach_commitment_levels() {
    let filter = slot_filter(None, None);
    for commitment in [None, Some(CommitmentLevel::Processed), Some(CommitmentLevel::Finalized)] {
        assert!(slot_accepted(&filter, SlotStatus::Processed, commitment));
        assert!(slot_accepted(&filter, SlotStatus::Confirmed, commitment));
        assert!(slot_accepted(&filter, SlotStatus::Finalized, commitment));
        assert!(!slot_accepted(&filter, SlotStatus::FirstShredReceived, commitment));
        assert!(!slot_accepted(&filter, SlotStatus::Completed, commitment));
        assert!(!slot_accepted(&filter, SlotStatus::CreatedBank, commitment));
        assert!(!slot_accepted(&filter, SlotStatus::Dead, commitment));
    }
    let between = slot_filter(Some(false), Some(true));
    assert!(slot_accepted(&between, SlotStatus::Dead, None));
    assert!(slot_accepted(&between, SlotStatus::CreatedBank, None));
}

#[test]
fn slots_are_chosen_by_commitment() {
    let filter = slot_filter(Some(true), None);
    let confirmed = Some(CommitmentLevel::Confirmed);
    assert!(slot_accepted(&filter, SlotStatus::Confirmed, confirmed));
    assert!(!slot_accepted(&filter, SlotStatus::Processed, confirmed));
    assert!(!slot_accepted(&filter, SlotStatus::Finalized, confirmed));
    assert!(!slot_accepted(&filter, SlotStatus::Confirmed, None));
    let between = slot_filter(Some(true), Some(true));
    assert!(!slot_accepted(&between, SlotStatus::Dead, confirmed));
    assert!(slot_accepted(&between, SlotStatus::Confirmed, confirmed));
}

#[test]
fn a_slot_update_carries_the_slot() {
    let filter = slot_filter(None, None);
    let updates = filter.get_updates(&slot(SlotStatus::Confirmed), None);
    match &updates[0].message {
        FilteredUpdateOneof::Slot(message) => {
            assert_eq!(message.slot, 4);
            assert_eq!(message.parent, Some(3));
            assert_eq!(message.status, SlotStatus::Confirmed);
        }
        other => panic!("{:?}", other),
    }
}

#[test]
fn entries_and_block_metas_go_to_every_filter() {
    let mut config = SubscribeRequest::default();
    config.entry.insert("e1".to_string(), SubscribeRequestFilterEntry {});
    config.entry.insert("e2".to_string(), SubscribeRequestFilterEntry {});
    config.blocks_meta.insert("m".to_string(), SubscribeRequestFilterBlocksMeta {});
    let filter = filter_of(&config);

    let updates = filter.get_updates(&Message::Entry(entry(7)), None);
    assert_eq!(updates.len(), 1);
    assert_eq!(
        updates[0].filters,
        vec![FilterName::new("e1"), FilterName::new("e2")]
    );
    assert!(matches!(
        updates[0].message,
        FilteredUpdateOneof::Entry(ref e) if e.index == 7
    ));

    let updates = filter.get_updates(&Message::BlockMeta(meta()), None);
    assert_eq!(updates.len(), 1);
    assert_eq!(updates[0].filters, vec![FilterName::new("m")]);
    assert!(matches!(
        updates[0].message,
        FilteredUpdateOneof::BlockMeta(ref m) if m.slot == 4
    ));

    let limits = {
        let mut limits = FilterLimits::default();
        limits.entries.max = 1;
        limits
    };
    assert!(matches!(
        refused(&config, &limits),
        FilterError::LimitsCheck(FilterLimitsCheckError::Max { max: 1 })
    ));
    let none = Filter::default();
    assert!(none.get_updates(&Message::Entry(entry(7)), None).is_empty());
    assert!(none.get_updates(&Message::BlockMeta(meta()), None).is_empty());
}

fn entry(index: usize) -> Arc<MessageEntry> {
    Arc::new(MessageEntry {
        slot: 4,
        index,
        num_hashes: 1,
        hash: [0; 32],
        executed_transaction_count: 0,
        starting_transaction_index: 0,
        created_at: AT,
    })
}

fn meta() -> Arc<MessageBlockMeta> {
    Arc::new(MessageBlockMeta {
        slot: 4,
        blockhash: "hash".to_string(),
        parent_slot: 3,
        parent_blockhash: "parent".to_string(),
        executed_transaction_count: 2,
        entries_count: 1,
        created_at: AT,
    })
}

fn transaction(index: usize, keys: &[u8]) -> Arc<MessageTransactionInfo> {
    let keys: Vec<Pubkey> = keys.iter().map(|n| pubkey(*n)).collect();
    Arc::new(MessageTransactionInfo {
        signature: Signature::new_from_array([index as u8; 64]),
        is_vote: false,
        transaction: Transaction { signatures: vec![] },
        meta: TransactionStatusMeta { err: None },
        index,
        account_keys: PubkeySet::from_slice(&keys),
    })
}

fn account(n: u8) -> Arc<MessageAccountInfo> {
    Arc::new(MessageAccountInfo {
        pubkey: pubkey(n),
        lamports: 0,
        owner: pubkey(99),
        executable: false,
        rent_epoch: 0,
        data: vec![],
        write_version: 0,
        txn_signature: None,
    })
}

fn block() -> Message {
    Message::Block(Arc::new(MessageBlock {
        meta: meta(),
        transactions: vec![transaction(0, &[1, 2]), transaction(1, &[2, 3])],
        updated_account_count: 12,
        accounts: vec![account(1), account(2), account(3)],
        entries: vec![entry(0)],
        created_at: AT,
    }))
}

fn blocks(filters: Vec<(&str, SubscribeRequestFilterBlocks)>) -> SubscribeRequest {
    let mut config = SubscribeRequest::default();
    for (name, filter) in filters {
        config.blocks.insert(name.to_string(), filter);
    }
    config
}

fn parts(update: &FilteredUpdateBlock) -> (Vec<usize>, Vec<Pubkey>, usize) {
    (
        update.transactions.iter().map(|tx| tx.index).collect(),
        update.accounts.iter().map(|account| account.pubkey).collect(),
        update.entries.len(),
    )
}

#[test]
fn a_block_goes_to_each_filter_with_its_parts() {
    let filter = filter_of(&blocks(vec![
        ("default", SubscribeRequestFilterBlocks::default()),
        (
            "all",
            SubscribeRequestFilterBlocks {
                account_include: vec![],
                include_transactions: Some(true),
                include_accounts: Some(true),
                include_entries: Some(true),
            },
        ),
        (
            "some",
            SubscribeRequestFilterBlocks {
                account_include: vec![text(3)],
                include_transactions: None,
                include_accounts: Some(true),
                include_entries: Some(false),
            },
        ),
        (
            "none",
            SubscribeRequestFilterBlocks {
                account_include: vec![],
                include_transactions: Some(false),
                include_accounts: Some(false),
                include_entries: None,
            },
        ),
    ]));
    assert!(filter.has_blocks_subscriptions());
    let updates = filter.get_updates(&block(), None);
    assert_eq!(updates.len(), 4);
    let expected = [
        ("default", (vec![0, 1], vec![], 0)),
        ("all", (vec![0, 1], vec![pubkey(1), pubkey(2), pubkey(3)], 1)),
        ("some", (vec![1], vec![pubkey(3)], 0)),
        ("none", (vec![], vec![], 0)),
    ];
    for (update, (name, wanted)) in updates.iter().zip(expected) {
        assert_eq!(update.filters, vec![FilterName::new(name)]);
        match &update.message {
            FilteredUpdateOneof::Block(block) => {
                assert_eq!(parts(block), wanted);
                assert_eq!(block.updated_account_count, 12);
                assert_eq!(block.meta.slot, 4);
            }
            other => panic!("{:?}", other),
        }
    }
}

#[test]
fn parts_of_blocks_can_be_forbidden() {
    let forbidden = |filter: SubscribeRequestFilterBlocks, limits: &FilterLimits| {
        match refused(&blocks(vec![("b", filter)]), limits) {
            FilterError::CreateBlocksNotAllowed(part) => part,
            other => panic!("{:?}", other),
        }
    };
    let mut limits = FilterLimits::default();
    limits.blocks.include_transactions = false;
    assert_eq!(
        forbidden(SubscribeRequestFilterBlocks::default(), &limits),
        "transactions"
    );
    let without = SubscribeRequestFilterBlocks {
        include_transactions: Some(false),
        ..SubscribeRequestFilterBlocks::default()
    };
    let config = blocks(vec![("b", without.clone())]);
    assert!(Filter::new(&config, &limits, &FilterNames::new(64)).is_ok());

    let mut limits = FilterLimits::default();
    limits.blocks.include_accounts = false;
    let accounts = SubscribeRequestFilterBlocks {
        include_accounts: Some(true),
        ..without.clone()
    };
    assert_eq!(forbidden(accounts, &limits), "accounts");
    let entries = SubscribeRequestFilterBlocks {
        include_entries: Some(true),
        ..without
    };
    assert_eq!(forbidden(entries, &limits), "entries");

    let mut limits = FilterLimits::default();
    limits.blocks.account_include_any = false;
    assert!(matches!(
        refused(
            &blocks(vec![("b", SubscribeRequestFilterBlocks::default())]),
            &limits
        ),
        FilterError::LimitsCheck(FilterLimitsCheckError::Any)
    ));
}

#[test]
fn commitments_are_read() {
    let with = |commitment: Option<i32>| {
        let config = SubscribeRequest {
            commitment,
            ..SubscribeRequest::default()
        };
        Filter::new(&config, &FilterLimits::default(), &FilterNames::new(64))
            .map(|filter| filter.get_commitment_level())
    };
    assert_eq!(with(None).unwrap(), CommitmentLevel::Processed);
    assert_eq!(with(Some(0)).unwrap(), CommitmentLevel::Processed);
    assert_eq!(with(Some(1)).unwrap(), CommitmentLevel::Confirmed);
    assert_eq!(with(Some(2)).unwrap(), CommitmentLevel::Finalized);
    for wrong in [3, -1, i32::MAX] {
        assert!(matches!(
            with(Some(wrong)),
            Err(FilterError::InvalidCommitment { commitment }) if commitment == wrong
        ));
    }
}

#[test]
fn pings_are_answered() {
    let config = SubscribeRequest {
        ping: Some(SubscribeRequestPing { id: -7 }),
        ..SubscribeRequest::default()
    };
    let pong = filter_of(&config).get_pong_msg().unwrap();
    assert!(pong.filters.is_empty());
    assert_eq!(pong.created_at, None);
    assert!(matches!(pong.message, FilteredUpdateOneof::Pong(p) if p.id == -7));
    assert!(filter_of(&SubscribeRequest::default()).get_pong_msg().is_none());
}

#[test]
fn filters_are_counted() {
    let mut config = blocks(vec![("b", SubscribeRequestFilterBlocks::default())]);
    config.entry.insert("e1".to_string(), SubscribeRequestFilterEntry {});
    config.entry.insert("e2".to_string(), SubscribeRequestFilterEntry {});
    config.blocks_meta.insert("m".to_string(), SubscribeRequestFilterBlocksMeta {});
    let filter = filter_of(&config);
    assert_eq!(
        filter.get_metrics(),
        [
            ("accounts", 0),
            ("slots", 0),
            ("transactions", 0),
            ("transactions_status", 0),
            ("entries", 2),
            ("blocks", 1),
            ("blocks_meta", 1),
            ("all", 4),
        ]
    );
    assert!(!filter.has_slots_subscriptions());
    assert!(slot_filter(None, None).has_slots_subscriptions());
    assert!(!Filter::default().has_blocks_subscriptions());
    assert_eq!(filter.clone().get_metrics(), filter.get_metrics());
}

#[test]
fn the_first_error_of_a_request_counts() {
    let config = SubscribeRequest {
        commitment: Some(9),
        accounts_data_slice: vec![
            SubscribeRequestAccountsDataSlice { offset: 5, length: 1 },
            SubscribeRequestAccountsDataSlice { offset: 0, length: 1 },
        ],
        ..SubscribeRequest::default()
    };
    let limits = FilterLimits::default();
    assert!(matches!(
        refused(&config, &limits),
        FilterError::InvalidCommitment { commitment: 9 }
    ));
    let config = SubscribeRequest {
        commitment: None,
        ..config
    };
    assert!(matches!(
        refused(&config, &limits),
        FilterError::CreateDataSliceOutOfOrder
    ));
}

#[test]
fn a_slice_without_an_end_is_seen_last() {
    let endless = || {
        vec![SubscribeRequestAccountsDataSlice {
            offset: u64::MAX,
            length: 1,
        }]
    };
    let names = FilterNames::new(64);
    let mut config = SubscribeRequest {
        accounts_data_slice: endless(),
        ..SubscribeRequest::default()
    };
    let mut limits = FilterLimits::default();
    assert!(Filter::new_checked(&config, &limits, &names).is_none());
    // what is refused before is refused all the same
    config.commitment = Some(9);
    assert!(matches!(
        Filter::new_checked(&config, &limits, &names),
        Some(Err(FilterError::InvalidCommitment { commitment: 9 }))
    ));
    assert!(matches!(
        Filter::new(&config, &limits, &names),
        Err(FilterError::InvalidCommitment { commitment: 9 })
    ));
    config.commitment = None;
    limits.accounts.data_slice_max = 0;
    for refused in [
        Filter::new_checked(&config, &limits, &names).unwrap(),
        Filter::new(&config, &limits, &names),
    ] {
        assert!(matches!(
            refused,
            Err(FilterError::LimitsCheck(FilterLimitsCheckError::Max { max: 0 }))
        ));
    }
    config.accounts_data_slice.clear();
    assert!(Filter::new_checked(&config, &limits, &names).unwrap().is_ok());
}
