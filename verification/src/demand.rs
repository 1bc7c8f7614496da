//! What a filter demands of a transaction.

use crate::pubkey::{Pubkey, Signature};
use vstd::prelude::*;

verus! {

/// A demand on the accounts of a transaction.
#[verifier::ext_equal]
pub struct AccountsDemand {
    pub included: Set<Pubkey>,
    pub excluded: Set<Pubkey>,
    pub required: Set<Pubkey>,
}

impl AccountsDemand {
    /// Nothing is demanded.
    pub open spec fn none() -> Self {
        AccountsDemand { included: Set::empty(), excluded: Set::empty(), required: Set::empty() }
    }

    /// One of the included accounts is there, where there are included accounts; none of the
    /// excluded ones is; all of the required ones are.
    pub open spec fn met(self, keys: Set<Pubkey>) -> bool {
        &&& self.included != Set::<Pubkey>::empty() ==> !self.included.disjoint(keys)
        &&& self.excluded.disjoint(keys)
        &&& self.required.subset_of(keys)
    }
}

/// A demand on a transaction that was run.
#[verifier::ext_equal]
pub struct TransactionDemand {
    pub vote: Option<bool>,
    pub failed: Option<bool>,
    pub signature: Option<Signature>,
    pub accounts: AccountsDemand,
}

impl TransactionDemand {
    /// Nothing is demanded.
    pub open spec fn none() -> Self {
        TransactionDemand {
            vote: None,
            failed: None,
            signature: None,
            accounts: AccountsDemand::none(),
        }
    }

    /// A transaction has what is demanded. It may have no signature.
    pub open spec fn met(
        self,
        is_vote: bool,
        is_failed: bool,
        signature: Option<Seq<u8>>,
        keys: Set<Pubkey>,
    ) -> bool {
        &&& self.vote is Some ==> self.vote == Some(is_vote)
        &&& self.failed is Some ==> self.failed == Some(is_failed)
        &&& self.signature is Some ==> signature == Some(self.signature->0.bytes@)
        &&& self.accounts.met(keys)
    }
}

/// A demand on a transaction that was received and not run yet.
#[verifier::ext_equal]
pub struct DeshredDemand {
    pub vote: Option<bool>,
    pub accounts: AccountsDemand,
}

impl DeshredDemand {
    /// Nothing is demanded.
    pub open spec fn none() -> Self {
        DeshredDemand { vote: None, accounts: AccountsDemand::none() }
    }

    /// A transaction has what is demanded.
    pub open spec fn met(self, is_vote: bool, keys: Set<Pubkey>) -> bool {
        &&& self.vote is Some ==> self.vote == Some(is_vote)
        &&& self.accounts.met(keys)
    }
}

} // verus!
