//! Reading the parts of a request that are texts and numbers.

use crate::error::{
    agrees, collected, lemma_collected, lemma_collected_error, lemma_collected_step, FilterError,
    FilterResult,
};
use crate::limits::{pubkey_reject_check, FilterLimits};
use crate::message::CommitmentLevel;
use crate::pubkey::{ParsePubkeyError, ParseSignatureError, Pubkey, Signature};
use crate::pubkey_set::PubkeySet;
use vstd::prelude::*;

verus! {

/// What parsing made of a text, taken as an address that a filter may name.
pub open spec fn accepted_pubkey(
    parsed: Result<Pubkey, ParsePubkeyError>,
    reject: Set<Pubkey>,
) -> FilterResult<Pubkey> {
    match parsed {
        Err(e) => Err(FilterError::InvalidPubkey(e)),
        Ok(pubkey) => match pubkey_reject_check(pubkey, reject) {
            Err(e) => Err(FilterError::LimitsCheck(e)),
            Ok(_) => Ok(pubkey),
        },
    }
}

pub fn accept_pubkey(parsed: Result<Pubkey, ParsePubkeyError>, reject: &PubkeySet) -> (r:
    FilterResult<Pubkey>)
    ensures
        r == accepted_pubkey(parsed, reject@),
{
    match parsed {
        Err(e) => Err(FilterError::InvalidPubkey(e)),
        Ok(pubkey) => match FilterLimits::check_pubkey_reject(&pubkey, reject) {
            Err(e) => Err(FilterError::LimitsCheck(e)),
            Ok(()) => Ok(pubkey),
        },
    }
}

/// What becomes of each text of a list.
pub open spec fn each_pubkey(texts: Seq<String>, reject: Set<Pubkey>) -> Seq<
    FilterResult<Pubkey>,
> {
    texts.map_values(|text: String| accepted_pubkey(Pubkey::parsed(text@), reject))
}

/// The addresses of a list of texts, or what is wrong with the first that is refused.
pub open spec fn decoded_pubkeys(texts: Seq<String>, reject: Set<Pubkey>) -> FilterResult<
    Seq<Pubkey>,
> {
    collected(each_pubkey(texts, reject))
}

pub fn decode_pubkeys(texts: &[String], reject: &PubkeySet) -> (r: FilterResult<Vec<Pubkey>>)
    ensures
        agrees(r, decoded_pubkeys(texts@, reject@)),
{
    let ghost results = each_pubkey(texts@, reject@);
    let mut keys: Vec<Pubkey> = Vec::new();
    let mut i: usize = 0;
    assert(results.take(0) =~= Seq::empty());
    while i < texts.len()
        invariant
            i <= texts@.len(),
            results == each_pubkey(texts@, reject@),
            collected(results.take(i as int)) == Ok::<Seq<Pubkey>, FilterError>(keys@),
        decreases texts@.len() - i,
    {
        proof {
            lemma_collected_step(results, i as int);
        }
        match accept_pubkey(Pubkey::parse(texts[i].as_str()), reject) {
            Ok(key) => keys.push(key),
            Err(e) => {
                proof {
                    lemma_collected_error(results, i + 1);
                }
                return Err(e);
            },
        }
        i += 1;
    }
    assert(results.take(i as int) =~= results);
    Ok(keys)
}

/// Decoding succeeds where every text is the base58 form of an address that may be named, and
/// then gives these addresses in their order.
pub proof fn lemma_decoded_pubkeys(texts: Seq<String>, reject: Set<Pubkey>)
    ensures
        decoded_pubkeys(texts, reject) is Ok <==> forall|i: int|
            0 <= i < texts.len() ==> {
                &&& Pubkey::parsed((#[trigger] texts[i])@) is Ok
                &&& !reject.contains(Pubkey::parsed(texts[i]@)->Ok_0)
            },
        decoded_pubkeys(texts, reject) is Ok ==> {
            let keys = decoded_pubkeys(texts, reject)->Ok_0;
            &&& keys.len() == texts.len()
            &&& forall|i: int|
                0 <= i < texts.len() ==> Pubkey::parsed((#[trigger] texts[i])@) == Ok::<
                    Pubkey,
                    ParsePubkeyError,
                >(keys[i])
            &&& keys.to_set().disjoint(reject)
        },
{
    let results = each_pubkey(texts, reject);
    lemma_collected(results);
    assert forall|i: int| 0 <= i < texts.len() implies results[i] == accepted_pubkey(
        Pubkey::parsed((#[trigger] texts[i])@),
        reject,
    ) by {}
    match decoded_pubkeys(texts, reject) {
        Ok(keys) => {
            assert forall|i: int| 0 <= i < texts.len() implies Pubkey::parsed(
                (#[trigger] texts[i])@,
            ) == Ok::<Pubkey, ParsePubkeyError>(keys[i]) && !reject.contains(keys[i]) by {
                assert(results[i] == Ok::<Pubkey, FilterError>(keys[i]));
            }
            assert forall|k: Pubkey| keys.to_set().contains(k) implies !reject.contains(k) by {
                let i = choose|i: int| 0 <= i < keys.len() && keys[i] == k;
                assert(Pubkey::parsed(texts[i]@) == Ok::<Pubkey, ParsePubkeyError>(keys[i]));
            }
        },
        Err(e) => {
            let i = choose|i: int|
                {
                    &&& 0 <= i < results.len()
                    &&& #[trigger] results[i] == Err::<Pubkey, FilterError>(e)
                    &&& forall|j: int| 0 <= j < i ==> (#[trigger] results[j]) is Ok
                };
            assert(results[i] == accepted_pubkey(Pubkey::parsed(texts[i]@), reject));
        },
    }
}

/// The set of the addresses of a list of texts.
pub open spec fn decoded_pubkey_set(texts: Seq<String>, reject: Set<Pubkey>) -> FilterResult<
    Set<Pubkey>,
> {
    match decoded_pubkeys(texts, reject) {
        Ok(keys) => Ok(keys.to_set()),
        Err(e) => Err(e),
    }
}

pub fn decode_pubkeys_into_set(texts: &[String], reject: &PubkeySet) -> (r: FilterResult<
    PubkeySet,
>)
    ensures
        agrees(r, decoded_pubkey_set(texts@, reject@)),
{
    match decode_pubkeys(texts, reject) {
        Ok(keys) => Ok(PubkeySet::from_slice(keys.as_slice())),
        Err(e) => Err(e),
    }
}

/// What parsing made of a signature, where there is one.
pub open spec fn accepted_signature(
    parsed: Option<Result<Signature, ParseSignatureError>>,
) -> FilterResult<Option<Signature>> {
    match parsed {
        None => Ok(None),
        Some(Ok(signature)) => Ok(Some(signature)),
        Some(Err(e)) => Err(FilterError::InvalidSignature(e)),
    }
}

pub fn accept_signature(parsed: Option<Result<Signature, ParseSignatureError>>) -> (r: FilterResult<
    Option<Signature>,
>)
    ensures
        r == accepted_signature(parsed),
{
    match parsed {
        None => Ok(None),
        Some(Ok(signature)) => Ok(Some(signature)),
        Some(Err(e)) => Err(FilterError::InvalidSignature(e)),
    }
}

/// The signature that a request names, if it names one.
pub open spec fn decoded_signature(text: Option<String>) -> FilterResult<Option<Signature>> {
    accepted_signature(
        match text {
            None => None,
            Some(text) => Some(Signature::parsed(text@)),
        },
    )
}

pub fn decode_signature(text: &Option<String>) -> (r: FilterResult<Option<Signature>>)
    ensures
        r == decoded_signature(*text),
{
    accept_signature(
        match text {
            None => None,
            Some(text) => Some(Signature::parse(text.as_str())),
        },
    )
}

/// The commitment level that a number stands for. Without a number it is the lowest.
pub open spec fn decoded_commitment(commitment: Option<i32>) -> FilterResult<CommitmentLevel> {
    match commitment {
        None => Ok(CommitmentLevel::Processed),
        Some(0) => Ok(CommitmentLevel::Processed),
        Some(1) => Ok(CommitmentLevel::Confirmed),
        Some(2) => Ok(CommitmentLevel::Finalized),
        Some(commitment) => Err(FilterError::InvalidCommitment { commitment }),
    }
}

pub fn decode_commitment(commitment: Option<i32>) -> (r: FilterResult<CommitmentLevel>)
    ensures
        r == decoded_commitment(commitment),
{
    let commitment: i32 = match commitment {
        Some(commitment) => commitment,
        None => 0,
    };
    if commitment == 0 {
        Ok(CommitmentLevel::Processed)
    } else if commitment == 1 {
        Ok(CommitmentLevel::Confirmed)
    } else if commitment == 2 {
        Ok(CommitmentLevel::Finalized)
    } else {
        Err(FilterError::InvalidCommitment { commitment })
    }
}

} // verus!
