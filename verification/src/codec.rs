//! Trusted wrappers around the transport encodings the core relies on:
//! base64 for proof bytes on the wire and base58 for chain-format values.
//! Each outside result is given a name that the callers' contracts speak of.

use vstd::prelude::*;

use base64::Engine;

verus! {

/// What base64 (standard alphabet, padded) encodes a byte string to.
pub uninterp spec fn b64_encoded(data: Seq<u8>) -> Seq<char>;

/// What base64 (standard alphabet, padded) decodes a string to, if anything.
pub uninterp spec fn b64_decoded(text: Seq<char>) -> Option<Seq<u8>>;

/// What base58 (Bitcoin alphabet) decodes a string to, if anything.
pub uninterp spec fn base58_decoded(text: Seq<char>) -> Option<Seq<u8>>;

/// Relies on base64's standard engine: encoding is a function of the bytes
/// alone, and decoding an encoded string gives the original bytes back.
#[verifier::external_body]
pub fn base64_encode(data: &Vec<u8>) -> (r: String)
    ensures
        r@ == b64_encoded(data@),
        b64_decoded(r@) == Some(data@),
{
    base64::engine::general_purpose::STANDARD.encode(data)
}

/// Relies on base64's standard engine: decoding is a function of the string
/// alone, and rejects exactly the strings that are not valid base64.
#[verifier::external_body]
pub fn base64_decode(text: &str) -> (r: Option<Vec<u8>>)
    ensures
        match r {
            Some(v) => b64_decoded(text@) == Some(v@),
            None => b64_decoded(text@) is None,
        },
{
    base64::engine::general_purpose::STANDARD.decode(text).ok()
}

/// Relies on bs58: decoding is a function of the string alone, and rejects
/// exactly the strings that are not valid base58.
#[verifier::external_body]
pub fn base58_decode(text: &str) -> (r: Option<Vec<u8>>)
    ensures
        match r {
            Some(v) => base58_decoded(text@) == Some(v@),
            None => base58_decoded(text@) is None,
        },
{
    bs58::decode(text).into_vec().ok()
}

} // verus!
