//! Account addresses and transaction signatures.

use crate::bindings::{
    parse_pubkey, parse_signature, pubkey_from_slice, pubkey_from_text, signature_from_text,
};
use vstd::prelude::*;

verus! {

/// The address of an account: thirty-two bytes.
#[derive(Debug, Clone, Copy, PartialEq, Eq)]
pub struct Pubkey {
    pub bytes: [u8; 32],
}

/// The signature of a transaction: sixty-four bytes.
#[derive(Debug, Clone, Copy, PartialEq, Eq)]
pub struct Signature {
    pub bytes: [u8; 64],
}

/// Why a text is not the base58 form of an address.
#[derive(Debug, Clone, Copy, PartialEq, Eq, Structural)]
pub enum ParsePubkeyError {
    WrongSize,
    Invalid,
}

/// Why a text is not the base58 form of a signature.
#[derive(Debug, Clone, Copy, PartialEq, Eq, Structural)]
pub enum ParseSignatureError {
    WrongSize,
    Invalid,
}

/// Tells whether two byte strings are the same.
pub fn bytes_equal(a: &[u8], b: &[u8]) -> (r: bool)
    ensures
        r == (a@ == b@),
{
    if a.len() != b.len() {
        return false;
    }
    let mut i: usize = 0;
    while i < a.len()
        invariant
            a@.len() == b@.len(),
            i <= a@.len(),
            forall|j: int| 0 <= j < i ==> a@[j] == b@[j],
        decreases a@.len() - i,
    {
        if a[i] != b[i] {
            return false;
        }
        i += 1;
    }
    assert(a@ =~= b@);
    true
}

impl Pubkey {
    pub fn new_from_array(bytes: [u8; 32]) -> (r: Self)
        ensures
            r.bytes == bytes,
    {
        Pubkey { bytes }
    }

    /// The address that a text is the base58 form of.
    pub open spec fn parsed(text: Seq<char>) -> Result<Pubkey, ParsePubkeyError> {
        match pubkey_from_text(text) {
            Ok(bytes) => Ok(Pubkey { bytes }),
            Err(e) => Err(e),
        }
    }

    pub fn parse(text: &str) -> (r: Result<Pubkey, ParsePubkeyError>)
        ensures
            r == Self::parsed(text@),
    {
        match parse_pubkey(text) {
            Ok(bytes) => Ok(Pubkey { bytes }),
            Err(e) => Err(e),
        }
    }

    /// The address whose bytes these are, if they are thirty-two.
    pub fn from_bytes(bytes: &[u8]) -> (r: Option<Pubkey>)
        ensures
            match r {
                Some(key) => key.bytes@ == bytes@,
                None => bytes@.len() != 32,
            },
    {
        match pubkey_from_slice(bytes) {
            Some(bytes) => Some(Pubkey { bytes }),
            None => None,
        }
    }

    /// Tells whether two addresses are the same.
    pub fn same(&self, other: &Pubkey) -> (r: bool)
        ensures
            r == (*self == *other),
    {
        let r = bytes_equal(self.bytes.as_slice(), other.bytes.as_slice());
        proof {
            if self.bytes@ == other.bytes@ {
                assert(self.bytes =~= other.bytes);
            }
        }
        r
    }
}

/// The signature of zeros alone.
impl Default for Signature {
    fn default() -> (r: Self)
        ensures
            r.bytes@ == Seq::new(64, |i: int| 0u8),
    {
        let bytes: [u8; 64] = [0; 64];
        assert(bytes@ =~= Seq::new(64, |i: int| 0u8));
        Signature { bytes }
    }
}

impl Signature {
    pub fn new_from_array(bytes: [u8; 64]) -> (r: Self)
        ensures
            r.bytes == bytes,
    {
        Signature { bytes }
    }

    /// The signature that a text is the base58 form of.
    pub open spec fn parsed(text: Seq<char>) -> Result<Signature, ParseSignatureError> {
        match signature_from_text(text) {
            Ok(bytes) => Ok(Signature { bytes }),
            Err(e) => Err(e),
        }
    }

    pub fn parse(text: &str) -> (r: Result<Signature, ParseSignatureError>)
        ensures
            r == Self::parsed(text@),
    {
        match parse_signature(text) {
            Ok(bytes) => Ok(Signature { bytes }),
            Err(e) => Err(e),
        }
    }

    /// Tells whether two signatures are the same.
    pub fn same(&self, other: &Signature) -> (r: bool)
        ensures
            r == (*self == *other),
    {
        let r = bytes_equal(self.bytes.as_slice(), other.bytes.as_slice());
        proof {
            if self.bytes@ == other.bytes@ {
                assert(self.bytes =~= other.bytes);
            }
        }
        r
    }
}

} // verus!
