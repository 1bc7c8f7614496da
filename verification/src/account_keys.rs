//! The accounts of a transaction where they lie in several lists.

use crate::pubkey::Pubkey;
use crate::pubkey_set::PubkeySet;
use vstd::prelude::*;

verus! {

/// The accounts that a transaction names itself, and those that it loads to write and to read.
#[derive(Debug, Clone, Copy)]
pub struct TxAccountKeysView<'a> {
    pub static_keys: &'a [Pubkey],
    pub loaded_writable: &'a [Pubkey],
    pub loaded_readonly: &'a [Pubkey],
}

/// All accounts of three lists.
pub open spec fn all_keys(
    static_keys: Seq<Pubkey>,
    loaded_writable: Seq<Pubkey>,
    loaded_readonly: Seq<Pubkey>,
) -> Set<Pubkey> {
    static_keys.to_set().union(loaded_writable.to_set()).union(loaded_readonly.to_set())
}

/// Tells whether an account is in a list.
fn key_listed(keys: &[Pubkey], key: &Pubkey) -> (r: bool)
    ensures
        r == keys@.to_set().contains(*key),
{
    let mut i: usize = 0;
    while i < keys.len()
        invariant
            i <= keys@.len(),
            forall|j: int| 0 <= j < i ==> keys@[j] != *key,
        decreases keys@.len() - i,
    {
        if keys[i].same(key) {
            return true;
        }
        i += 1;
    }
    false
}

impl<'a> TxAccountKeysView<'a> {
    /// The accounts of the transaction.
    pub open spec fn keys(&self) -> Set<Pubkey> {
        all_keys(self.static_keys@, self.loaded_writable@, self.loaded_readonly@)
    }

    pub fn new(
        static_keys: &'a [Pubkey],
        loaded_writable: &'a [Pubkey],
        loaded_readonly: &'a [Pubkey],
    ) -> (r: Self)
        ensures
            r.static_keys@ == static_keys@,
            r.loaded_writable@ == loaded_writable@,
            r.loaded_readonly@ == loaded_readonly@,
    {
        TxAccountKeysView { static_keys, loaded_writable, loaded_readonly }
    }

    /// Tells whether some account of the transaction is in the set.
    pub fn any_in_set(&self, set: &PubkeySet) -> (r: bool)
        ensures
            r == !set@.disjoint(self.keys()),
    {
        let r = set.contains_any(self.static_keys) || set.contains_any(self.loaded_writable)
            || set.contains_any(self.loaded_readonly);
        proof {
            if r {
                let k = choose|k: Pubkey|
                    (self.static_keys@.contains(k) || self.loaded_writable@.contains(k)
                        || self.loaded_readonly@.contains(k)) && #[trigger] set@.contains(k);
                assert(set@.contains(k) && self.keys().contains(k));
            } else if !set@.disjoint(self.keys()) {
                let k = choose|k: Pubkey| set@.contains(k) && self.keys().contains(k);
                assert(set@.contains(k));
            }
        }
        r
    }

    /// Tells whether the transaction has the account.
    pub fn contains(&self, key: &Pubkey) -> (r: bool)
        ensures
            r == self.keys().contains(*key),
    {
        key_listed(self.static_keys, key) || key_listed(self.loaded_writable, key) || key_listed(
            self.loaded_readonly,
            key,
        )
    }

    /// Tells whether the transaction has every account of the set.
    pub fn contains_all(&self, set: &PubkeySet) -> (r: bool)
        ensures
            r == set@.subset_of(self.keys()),
    {
        self.contains_listed(set.as_slice())
    }

    /// Tells whether some account of the transaction is in the list.
    pub fn any_listed(&self, list: &[Pubkey]) -> (r: bool)
        ensures
            r == !list@.to_set().disjoint(self.keys()),
    {
        let mut i: usize = 0;
        while i < list.len()
            invariant
                i <= list@.len(),
                forall|j: int| 0 <= j < i ==> !self.keys().contains(#[trigger] list@[j]),
            decreases list@.len() - i,
        {
            if self.contains(&list[i]) {
                assert(list@.to_set().contains(list@[i as int]));
                return true;
            }
            i += 1;
        }
        false
    }

    /// Tells whether the transaction has every account of the list.
    pub fn contains_listed(&self, list: &[Pubkey]) -> (r: bool)
        ensures
            r == list@.to_set().subset_of(self.keys()),
    {
        let mut i: usize = 0;
        while i < list.len()
            invariant
                i <= list@.len(),
                forall|j: int| 0 <= j < i ==> self.keys().contains(#[trigger] list@[j]),
            decreases list@.len() - i,
        {
            if !self.contains(&list[i]) {
                assert(list@.to_set().contains(list@[i as int]));
                return false;
            }
            i += 1;
        }
        true
    }

    /// The accounts of the transaction as a set of their own.
    pub fn to_hash_set(&self) -> (r: PubkeySet)
        ensures
            r@ == self.keys(),
    {
        let loaded: Option<usize> = self.loaded_writable.len().checked_add(
            self.loaded_readonly.len(),
        );
        let total: Option<usize> = match loaded {
            Some(loaded) => self.static_keys.len().checked_add(loaded),
            None => None,
        };
        let mut keys = match total {
            Some(total) => PubkeySet::with_capacity(total),
            None => PubkeySet::new(),
        };
        keys.extend_from_slice(self.static_keys);
        keys.extend_from_slice(self.loaded_writable);
        keys.extend_from_slice(self.loaded_readonly);
        assert(keys@ =~= self.keys());
        keys
    }
}

} // verus!
