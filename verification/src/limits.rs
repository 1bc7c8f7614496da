//! Limits on what a subscription may ask for.

use crate::pubkey::Pubkey;
use crate::pubkey_set::PubkeySet;
use vstd::prelude::*;

verus! {

#[derive(Debug, Clone, Copy, PartialEq, Eq)]
pub enum FilterLimitsCheckError {
    /// More filters or data slices than allowed.
    Max { max: usize },
    /// A filter that matches everything, where that is not allowed.
    Any,
    /// More addresses in one list than allowed.
    MaxPubkey { max: usize },
    /// An address that no filter may name.
    PubkeyReject { pubkey: Pubkey },
}

#[derive(Debug, Clone)]
pub struct FilterLimits {
    pub accounts: FilterLimitsAccounts,
    pub slots: FilterLimitsSlots,
    pub transactions: FilterLimitsTransactions,
    pub transactions_status: FilterLimitsTransactions,
    pub entries: FilterLimitsEntries,
    pub blocks: FilterLimitsBlocks,
    pub blocks_meta: FilterLimitsBlocksMeta,
    pub deshred_transactions: FilterLimitsDeshredTransactions,
}

#[derive(Debug, Clone)]
pub struct FilterLimitsAccounts {
    pub max: usize,
    pub any: bool,
    pub account_max: usize,
    pub account_reject: PubkeySet,
    pub owner_max: usize,
    pub owner_reject: PubkeySet,
    pub data_slice_max: usize,
}

#[derive(Debug, Clone)]
pub struct FilterLimitsSlots {
    pub max: usize,
}

#[derive(Debug, Clone)]
pub struct FilterLimitsTransactions {
    pub max: usize,
    pub any: bool,
    pub account_include_max: usize,
    pub account_include_reject: PubkeySet,
    pub account_exclude_max: usize,
    pub account_required_max: usize,
}

#[derive(Debug, Clone)]
pub struct FilterLimitsDeshredTransactions {
    pub max: usize,
    pub any: bool,
    pub account_include_max: usize,
    pub account_include_reject: PubkeySet,
    pub account_exclude_max: usize,
    pub account_required_max: usize,
}

#[derive(Debug, Clone)]
pub struct FilterLimitsEntries {
    pub max: usize,
}

#[derive(Debug, Clone)]
pub struct FilterLimitsBlocks {
    pub max: usize,
    pub account_include_max: usize,
    pub account_include_any: bool,
    pub account_include_reject: PubkeySet,
    pub include_transactions: bool,
    pub include_accounts: bool,
}

#[derive(Debug, Clone)]
pub struct FilterLimitsBlocksMeta {
    pub max: usize,
}

pub open spec fn max_check(len: int, max: usize) -> Result<(), FilterLimitsCheckError> {
    if len > max {
        Err(FilterLimitsCheckError::Max { max })
    } else {
        Ok(())
    }
}

pub open spec fn any_check(is_empty: bool, any: bool) -> Result<(), FilterLimitsCheckError> {
    if is_empty && !any {
        Err(FilterLimitsCheckError::Any)
    } else {
        Ok(())
    }
}

pub open spec fn pubkey_max_check(len: int, max: usize) -> Result<(), FilterLimitsCheckError> {
    if len > max {
        Err(FilterLimitsCheckError::MaxPubkey { max })
    } else {
        Ok(())
    }
}

pub open spec fn pubkey_reject_check(pubkey: Pubkey, reject: Set<Pubkey>) -> Result<
    (),
    FilterLimitsCheckError,
> {
    if reject.contains(pubkey) {
        Err(FilterLimitsCheckError::PubkeyReject { pubkey })
    } else {
        Ok(())
    }
}

impl FilterLimits {
    pub fn check_max(len: usize, max: usize) -> (r: Result<(), FilterLimitsCheckError>)
        ensures
            r == max_check(len as int, max),
    {
        if len > max {
            Err(FilterLimitsCheckError::Max { max })
        } else {
            Ok(())
        }
    }

    pub fn check_any(is_empty: bool, any: bool) -> (r: Result<(), FilterLimitsCheckError>)
        ensures
            r == any_check(is_empty, any),
    {
        if is_empty && !any {
            Err(FilterLimitsCheckError::Any)
        } else {
            Ok(())
        }
    }

    pub fn check_pubkey_max(len: usize, max: usize) -> (r: Result<(), FilterLimitsCheckError>)
        ensures
            r == pubkey_max_check(len as int, max),
    {
        if len > max {
            Err(FilterLimitsCheckError::MaxPubkey { max })
        } else {
            Ok(())
        }
    }

    pub fn check_pubkey_reject(pubkey: &Pubkey, reject: &PubkeySet) -> (r: Result<
        (),
        FilterLimitsCheckError,
    >)
        ensures
            r == pubkey_reject_check(*pubkey, reject@),
    {
        if reject.contains(pubkey) {
            Err(FilterLimitsCheckError::PubkeyReject { pubkey: *pubkey })
        } else {
            Ok(())
        }
    }
}

/// Nothing is limited.
impl Default for FilterLimits {
    fn default() -> (r: Self)
        ensures
            r.accounts.open(),
            r.slots.max == usize::MAX,
            r.transactions.open(),
            r.transactions_status.open(),
            r.entries.max == usize::MAX,
            r.blocks.open(),
            r.blocks_meta.max == usize::MAX,
            r.deshred_transactions.open(),
    {
        FilterLimits {
            accounts: FilterLimitsAccounts::default(),
            slots: FilterLimitsSlots { max: usize::MAX },
            transactions: FilterLimitsTransactions::default(),
            transactions_status: FilterLimitsTransactions::default(),
            entries: FilterLimitsEntries { max: usize::MAX },
            blocks: FilterLimitsBlocks::default(),
            blocks_meta: FilterLimitsBlocksMeta { max: usize::MAX },
            deshred_transactions: FilterLimitsDeshredTransactions::default(),
        }
    }
}

impl FilterLimitsAccounts {
    /// Nothing is limited.
    pub open spec fn open(&self) -> bool {
        &&& self.max == usize::MAX
        &&& self.any
        &&& self.account_max == usize::MAX
        &&& self.account_reject@ == Set::<Pubkey>::empty()
        &&& self.owner_max == usize::MAX
        &&& self.owner_reject@ == Set::<Pubkey>::empty()
        &&& self.data_slice_max == usize::MAX
    }
}

impl Default for FilterLimitsAccounts {
    fn default() -> (r: Self)
        ensures
            r.open(),
    {
        FilterLimitsAccounts {
            max: usize::MAX,
            any: true,
            account_max: usize::MAX,
            account_reject: PubkeySet::new(),
            owner_max: usize::MAX,
            owner_reject: PubkeySet::new(),
            data_slice_max: usize::MAX,
        }
    }
}

impl FilterLimitsTransactions {
    /// Nothing is limited.
    pub open spec fn open(&self) -> bool {
        &&& self.max == usize::MAX
        &&& self.any
        &&& self.account_include_max == usize::MAX
        &&& self.account_include_reject@ == Set::<Pubkey>::empty()
        &&& self.account_exclude_max == usize::MAX
        &&& self.account_required_max == usize::MAX
    }
}

impl Default for FilterLimitsTransactions {
    fn default() -> (r: Self)
        ensures
            r.open(),
    {
        FilterLimitsTransactions {
            max: usize::MAX,
            any: true,
            account_include_max: usize::MAX,
            account_include_reject: PubkeySet::new(),
            account_exclude_max: usize::MAX,
            account_required_max: usize::MAX,
        }
    }
}

impl FilterLimitsDeshredTransactions {
    /// Nothing is limited.
    pub open spec fn open(&self) -> bool {
        &&& self.max == usize::MAX
        &&& self.any
        &&& self.account_include_max == usize::MAX
        &&& self.account_include_reject@ == Set::<Pubkey>::empty()
        &&& self.account_exclude_max == usize::MAX
        &&& self.account_required_max == usize::MAX
    }
}

impl Default for FilterLimitsDeshredTransactions {
    fn default() -> (r: Self)
        ensures
            r.open(),
    {
        FilterLimitsDeshredTransactions {
            max: usize::MAX,
            any: true,
            account_include_max: usize::MAX,
            account_include_reject: PubkeySet::new(),
            account_exclude_max: usize::MAX,
            account_required_max: usize::MAX,
        }
    }
}

impl FilterLimitsBlocks {
    /// Nothing is limited.
    pub open spec fn open(&self) -> bool {
        &&& self.max == usize::MAX
        &&& self.account_include_max == usize::MAX
        &&& self.account_include_any
        &&& self.account_include_reject@ == Set::<Pubkey>::empty()
        &&& self.include_transactions
        &&& self.include_accounts
    }
}

impl Default for FilterLimitsBlocks {
    fn default() -> (r: Self)
        ensures
            r.open(),
    {
        FilterLimitsBlocks {
            max: usize::MAX,
            account_include_max: usize::MAX,
            account_include_any: true,
            account_include_reject: PubkeySet::new(),
            include_transactions: true,
            include_accounts: true,
        }
    }
}

} // verus!
