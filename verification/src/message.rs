//! The notifications that filters look at.

use crate::account_keys::{all_keys, TxAccountKeysView};
use crate::pubkey::{Pubkey, Signature};
use crate::pubkey_set::PubkeySet;
use std::sync::Arc;
use vstd::prelude::*;

verus! {

/// A moment in time: seconds since the epoch, and nanoseconds.
#[derive(Debug, Clone, Copy, PartialEq, Eq, Structural)]
pub struct Timestamp {
    pub seconds: i64,
    pub nanos: i32,
}

/// How settled the state is that a subscriber wants to see.
#[derive(Debug, Clone, Copy, PartialEq, Eq, Structural)]
pub enum CommitmentLevel {
    Processed,
    Confirmed,
    Finalized,
}

/// What has happened to a slot.
#[derive(Debug, Clone, Copy, PartialEq, Eq, Structural)]
pub enum SlotStatus {
    Processed,
    Confirmed,
    Finalized,
    FirstShredReceived,
    Completed,
    CreatedBank,
    Dead,
}

impl SlotStatus {
    /// The commitment level that a slot reaches with this status, if the status is about that.
    pub open spec fn level(self) -> Option<CommitmentLevel> {
        match self {
            SlotStatus::Processed => Some(CommitmentLevel::Processed),
            SlotStatus::Confirmed => Some(CommitmentLevel::Confirmed),
            SlotStatus::Finalized => Some(CommitmentLevel::Finalized),
            _ => None,
        }
    }

    pub fn commitment_level(self) -> (r: Option<CommitmentLevel>)
        ensures
            r == self.level(),
    {
        match self {
            SlotStatus::Processed => Some(CommitmentLevel::Processed),
            SlotStatus::Confirmed => Some(CommitmentLevel::Confirmed),
            SlotStatus::Finalized => Some(CommitmentLevel::Finalized),
            _ => None,
        }
    }
}

/// An account after a write.
#[derive(Debug)]
pub struct MessageAccountInfo {
    pub pubkey: Pubkey,
    pub lamports: u64,
    pub owner: Pubkey,
    pub executable: bool,
    pub rent_epoch: u64,
    pub data: Vec<u8>,
    pub write_version: u64,
    pub txn_signature: Option<Signature>,
}

#[derive(Debug)]
pub struct MessageAccount {
    pub account: Arc<MessageAccountInfo>,
    pub slot: u64,
    pub is_startup: bool,
    pub created_at: Timestamp,
}

#[derive(Debug)]
pub struct MessageSlot {
    pub slot: u64,
    pub parent: Option<u64>,
    pub status: SlotStatus,
    pub dead_error: Option<String>,
    pub created_at: Timestamp,
}

impl Clone for MessageSlot {
    fn clone(&self) -> (r: Self)
        ensures
            r == *self,
    {
        let dead_error = match &self.dead_error {
            Some(text) => Some(text.clone()),
            None => None,
        };
        MessageSlot {
            slot: self.slot,
            parent: self.parent,
            status: self.status,
            dead_error,
            created_at: self.created_at,
        }
    }
}

/// The signatures under a transaction, the first of which identifies it.
#[derive(Debug)]
pub struct Transaction {
    pub signatures: Vec<Vec<u8>>,
}

/// How a transaction ended: with an error, in its encoded form, or without.
#[derive(Debug)]
pub struct TransactionStatusMeta {
    pub err: Option<Vec<u8>>,
}

#[derive(Debug)]
pub struct MessageTransactionInfo {
    pub signature: Signature,
    pub is_vote: bool,
    pub transaction: Transaction,
    pub meta: TransactionStatusMeta,
    pub index: usize,
    pub account_keys: PubkeySet,
}

impl MessageTransactionInfo {
    /// The bytes of the first signature, if there is one.
    pub open spec fn first_signature(&self) -> Option<Seq<u8>> {
        if self.transaction.signatures@.len() > 0 {
            Some(self.transaction.signatures@[0]@)
        } else {
            None
        }
    }

    /// The transaction ended with an error.
    pub open spec fn is_failed(&self) -> bool {
        self.meta.err is Some
    }
}

#[derive(Debug)]
pub struct MessageTransaction {
    pub transaction: Arc<MessageTransactionInfo>,
    pub slot: u64,
    pub created_at: Timestamp,
}

/// A transaction as it was received, before it was run.
#[derive(Debug)]
pub struct MessageDeshredTransactionInfo {
    pub signature: Signature,
    pub is_vote: bool,
    pub transaction: Transaction,
    pub static_account_keys: Vec<Pubkey>,
    pub loaded_writable_addresses: Vec<Pubkey>,
    pub loaded_readonly_addresses: Vec<Pubkey>,
}

impl MessageDeshredTransactionInfo {
    /// The accounts of the transaction.
    pub open spec fn keys(&self) -> Set<Pubkey> {
        all_keys(
            self.static_account_keys@,
            self.loaded_writable_addresses@,
            self.loaded_readonly_addresses@,
        )
    }

    pub fn all_account_keys(&self) -> (r: TxAccountKeysView<'_>)
        ensures
            r.keys() == self.keys(),
            r.static_keys@ == self.static_account_keys@,
            r.loaded_writable@ == self.loaded_writable_addresses@,
            r.loaded_readonly@ == self.loaded_readonly_addresses@,
    {
        TxAccountKeysView::new(
            self.static_account_keys.as_slice(),
            self.loaded_writable_addresses.as_slice(),
            self.loaded_readonly_addresses.as_slice(),
        )
    }
}

#[derive(Debug)]
pub struct MessageDeshredTransaction {
    pub transaction: Arc<MessageDeshredTransactionInfo>,
    pub slot: u64,
    pub created_at: Timestamp,
}

#[derive(Debug)]
pub struct MessageEntry {
    pub slot: u64,
    pub index: usize,
    pub num_hashes: u64,
    pub hash: [u8; 32],
    pub executed_transaction_count: u64,
    pub starting_transaction_index: u64,
    pub created_at: Timestamp,
}

#[derive(Debug)]
pub struct MessageBlockMeta {
    pub slot: u64,
    pub blockhash: String,
    pub parent_slot: u64,
    pub parent_blockhash: String,
    pub executed_transaction_count: u64,
    pub entries_count: u64,
    pub created_at: Timestamp,
}

#[derive(Debug)]
pub struct MessageBlock {
    pub meta: Arc<MessageBlockMeta>,
    pub transactions: Vec<Arc<MessageTransactionInfo>>,
    pub updated_account_count: u64,
    pub accounts: Vec<Arc<MessageAccountInfo>>,
    pub entries: Vec<Arc<MessageEntry>>,
    pub created_at: Timestamp,
}

#[derive(Debug)]
pub enum Message {
    Slot(MessageSlot),
    Account(MessageAccount),
    Transaction(MessageTransaction),
    DeshredTransaction(MessageDeshredTransaction),
    Entry(Arc<MessageEntry>),
    BlockMeta(Arc<MessageBlockMeta>),
    Block(Arc<MessageBlock>),
}

} // verus!
