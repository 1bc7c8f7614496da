//! Calls into other crates and into the standard library.
//!
//! Every function here hands its arguments to one outside function and hands the result back.
//! The contracts say what is relied on of that function.

use crate::pubkey::{ParsePubkeyError, ParseSignatureError};
use base64::Engine;
use bytes::BufMut;
use spl_token_2022_interface::generic_token_account::GenericTokenAccount;
use std::str::FromStr;
use std::sync::Arc;
use vstd::prelude::*;

verus! {

/// What `solana_pubkey::Pubkey::from_str` makes of a text: the thirty-two bytes of the address
/// whose base58 form it is, or why it is none.
pub uninterp spec fn pubkey_from_text(text: Seq<char>) -> Result<[u8; 32], ParsePubkeyError>;

/// `solana_pubkey::Pubkey::from_str`. The result depends on the text alone. No text of more
/// than forty-four bytes is an address.
#[verifier::external_body]
pub(crate) fn parse_pubkey(text: &str) -> (r: Result<[u8; 32], ParsePubkeyError>)
    ensures
        r == pubkey_from_text(text@),
        vstd::utf8::encode_utf8(text@).len() > 44 ==> r is Err && r->Err_0
            == ParsePubkeyError::WrongSize,
{
    match solana_pubkey::Pubkey::from_str(text) {
        Ok(pubkey) => Ok(pubkey.to_bytes()),
        Err(solana_pubkey::ParsePubkeyError::WrongSize) => Err(ParsePubkeyError::WrongSize),
        Err(solana_pubkey::ParsePubkeyError::Invalid) => Err(ParsePubkeyError::Invalid),
    }
}

/// `solana_pubkey::Pubkey::try_from` a byte string: an address has thirty-two bytes, and every
/// thirty-two bytes are one.
#[verifier::external_body]
pub(crate) fn pubkey_from_slice(bytes: &[u8]) -> (r: Option<[u8; 32]>)
    ensures
        match r {
            Some(array) => array@ == bytes@,
            None => bytes@.len() != 32,
        },
{
    solana_pubkey::Pubkey::try_from(bytes).ok().map(|pubkey| pubkey.to_bytes())
}

/// What `solana_signature::Signature::from_str` makes of a text: the sixty-four bytes of the
/// signature whose base58 form it is, or why it is none.
pub uninterp spec fn signature_from_text(text: Seq<char>) -> Result<[u8; 64], ParseSignatureError>;

/// `solana_signature::Signature::from_str`. The result depends on the text alone. No text of
/// more than eighty-eight bytes is a signature.
#[verifier::external_body]
pub(crate) fn parse_signature(text: &str) -> (r: Result<[u8; 64], ParseSignatureError>)
    ensures
        r == signature_from_text(text@),
        vstd::utf8::encode_utf8(text@).len() > 88 ==> r is Err && r->Err_0
            == ParseSignatureError::WrongSize,
{
    match solana_signature::Signature::from_str(text) {
        Ok(signature) => Ok(signature.into()),
        Err(solana_signature::ParseSignatureError::WrongSize) => Err(
            ParseSignatureError::WrongSize,
        ),
        Err(solana_signature::ParseSignatureError::Invalid) => Err(ParseSignatureError::Invalid),
    }
}

/// The bytes that `bs58::decode` reads from a text with its default alphabet, if it can.
pub uninterp spec fn base58_bytes(text: Seq<char>) -> Option<Seq<u8>>;

/// `bs58::decode` into a vector. The result depends on the text alone.
#[verifier::external_body]
pub(crate) fn decode_base58(text: &str) -> (r: Option<Vec<u8>>)
    ensures
        match r {
            Some(bytes) => base58_bytes(text@) == Some(bytes@),
            None => base58_bytes(text@) is None,
        },
{
    bs58::decode(text).into_vec().ok()
}

/// The bytes that the standard engine of `base64` reads from a text, if it can.
pub uninterp spec fn base64_bytes(text: Seq<char>) -> Option<Seq<u8>>;

/// `decode` of the engine `base64::engine::general_purpose::STANDARD`. The result depends on
/// the text alone.
#[verifier::external_body]
pub(crate) fn decode_base64(text: &str) -> (r: Option<Vec<u8>>)
    ensures
        match r {
            Some(bytes) => base64_bytes(text@) == Some(bytes@),
            None => base64_bytes(text@) is None,
        },
{
    base64::engine::general_purpose::STANDARD.decode(text).ok()
}

/// Account data of a token account that has been initialized: as long as a plain account, or
/// longer, marked as an account behind the plain part, and not as long as a multisignature.
pub open spec fn valid_token_account(data: Seq<u8>) -> bool {
    &&& data.len() == 165 || (data.len() > 165 && data.len() != 355 && data[165] == 2)
    &&& data[108] != 0
}

/// `valid_account_data` of `spl_token_2022_interface::state::Account`.
#[verifier::external_body]
pub(crate) fn is_valid_token_account(data: &[u8]) -> (r: bool)
    ensures
        r == valid_token_account(data@),
{
    spl_token_2022_interface::state::Account::valid_account_data(data)
}

/// The base 128 form of a number, lowest digits first: every byte but the last has its highest
/// bit set.
pub open spec fn varint(value: nat) -> Seq<u8>
    decreases value,
{
    if value < 128 {
        seq![value as u8]
    } else {
        seq![(value % 128 + 128) as u8] + varint(value / 128)
    }
}

/// `prost::encoding::encode_key` for a length-delimited field: appends the field's number and
/// its wire type, which is two, as one varint. Field numbers have at most twenty-nine bits.
#[verifier::external_body]
pub(crate) fn put_length_delimited_key(tag: u32, buf: &mut Vec<u8>)
    requires
        1 <= tag < 0x2000_0000,
    ensures
        final(buf)@ == old(buf)@ + varint((tag * 8 + 2) as nat),
{
    prost::encoding::encode_key(tag, prost::encoding::WireType::LengthDelimited, buf)
}

/// `prost::encoding::encode_varint`: appends a number as a varint.
#[verifier::external_body]
pub(crate) fn put_varint(value: u64, buf: &mut Vec<u8>)
    ensures
        final(buf)@ == old(buf)@ + varint(value as nat),
{
    prost::encoding::encode_varint(value, buf)
}

/// `bytes::BufMut::put_slice` on a vector: appends the bytes.
#[verifier::external_body]
pub(crate) fn put_slice(bytes: &[u8], buf: &mut Vec<u8>)
    ensures
        final(buf)@ == old(buf)@ + bytes@,
{
    buf.put_slice(bytes)
}

/// `Arc::clone`: another handle on the same value.
#[verifier::external_body]
pub(crate) fn share<T: ?Sized>(handle: &Arc<T>) -> (r: Arc<T>)
    ensures
        r == *handle,
{
    Arc::clone(handle)
}

/// `Arc::from` a vector: the shared slice holds the same items in the same order.
#[verifier::external_body]
pub(crate) fn share_items<T>(items: Vec<T>) -> (r: Arc<[T]>)
    ensures
        r@ == items@,
{
    Arc::from(items)
}

} // verus!
