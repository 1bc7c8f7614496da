//! Subscription filters for a stream of ledger notifications.

pub mod account_gate;
pub mod account_keys;
pub mod accounts;
pub mod accounts_state;
pub mod bindings;
pub mod blocks;
pub mod data_slice;
pub mod decision_laws;
pub mod decode;
pub mod demand;
pub mod deshred_filter;
pub mod deshred_gate;
pub mod deshred_transactions;
pub mod entries;
pub mod error;
pub mod filter;
pub mod filter_laws;
pub mod gate;
pub mod gate_laws;
pub mod limits;
pub mod listing;
pub mod message;
pub mod name;
pub mod named;
pub mod pubkey;
pub mod pubkey_set;
pub mod request;
pub mod request_laws;
pub mod slice_laws;
pub mod slots;
pub mod transaction_gate;
pub mod transactions;
pub mod update;
pub mod update_laws;

pub use account_gate::{AccountFilterGate, AccountFilterRule};
pub use data_slice::FilterAccountsDataSlice;
pub use deshred_filter::DeshredFilter;
pub use deshred_gate::{DeshredTransactionFilterGate, DeshredTransactionFilterRule};
pub use error::{FilterError, FilterResult};
pub use filter::Filter;
pub use transaction_gate::{TransactionFilterGate, TransactionFilterRule};
